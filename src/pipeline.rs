use vstd::prelude::*;
use vstd::string::StrSliceExecFns;
use vstd::utf8::encode_utf8;
use crate::headers::{
    EntryView, HeaderList, values_of, without, has_header, replaced, added_if_absent,
    lemma_values_of_push, lemma_without_push, lemma_values_of_replaced,
};
use crate::policy::{CacheControl, chosen_policy, header_text_ok, header_value_accepts, html_like};

verus! {

/// The name of the opener-policy header.
pub open spec fn opener_name() -> Seq<char> {
    "cross-origin-opener-policy"@
}

/// The opener policy set when the responder set none.
pub open spec fn opener_value() -> Seq<char> {
    "same-origin"@
}

/// The name of the embedder-policy header.
pub open spec fn embedder_name() -> Seq<char> {
    "cross-origin-embedder-policy"@
}

/// The embedder policy set when the responder set none.
pub open spec fn embedder_value() -> Seq<char> {
    "require-corp"@
}

/// The name of the cache header.
pub open spec fn cache_control_name() -> Seq<char> {
    "cache-control"@
}

/// The opener stage: `same-origin` unless a value is already there.
pub open spec fn opener_stage(h: Seq<EntryView>) -> Seq<EntryView> {
    added_if_absent(h, opener_name(), encode_utf8(opener_value()))
}

/// The embedder stage: `require-corp` unless a value is already there.
pub open spec fn embedder_stage(h: Seq<EntryView>) -> Seq<EntryView> {
    added_if_absent(h, embedder_name(), encode_utf8(embedder_value()))
}

/// The cache stage: the chosen policy replaces any earlier value; a policy
/// that cannot be a header value leaves the headers as they were.
pub open spec fn cache_stage(
    h: Seq<EntryView>,
    path: Seq<char>,
    asset: Seq<char>,
    html: Seq<char>,
) -> Seq<EntryView> {
    let p = chosen_policy(asset, html, path);
    if header_text_ok(p) {
        replaced(h, cache_control_name(), encode_utf8(p))
    } else {
        h
    }
}

/// The headers of a response after the whole pipeline, stage by stage.
pub open spec fn decorated(
    h: Seq<EntryView>,
    path: Seq<char>,
    asset: Seq<char>,
    html: Seq<char>,
) -> Seq<EntryView> {
    cache_stage(embedder_stage(opener_stage(h)), path, asset, html)
}

/// Sets `Cross-Origin-Opener-Policy: same-origin` unless the response has one.
pub fn apply_opener_policy(headers: &mut HeaderList)
    ensures
        final(headers)@ == opener_stage(old(headers)@),
{
    headers.insert_if_absent("cross-origin-opener-policy", "same-origin".as_bytes_vec());
}

/// Sets `Cross-Origin-Embedder-Policy: require-corp` unless the response has one.
pub fn apply_embedder_policy(headers: &mut HeaderList)
    ensures
        final(headers)@ == embedder_stage(old(headers)@),
{
    headers.insert_if_absent("cross-origin-embedder-policy", "require-corp".as_bytes_vec());
}

/// Sets `Cache-Control` from the request path's class, overwriting any value.
pub fn apply_cache_control(headers: &mut HeaderList, path: &str, cache: &CacheControl)
    ensures
        final(headers)@ == cache_stage(
            old(headers)@,
            path@,
            cache.static_cache@,
            cache.html_cache@,
        ),
{
    let policy = cache.policy_for(path);
    if header_value_accepts(policy.as_str()) {
        headers.insert("cache-control", policy.as_str().as_bytes_vec());
    }
}

/// Runs the response's headers through the opener, embedder and cache stages in turn.
pub fn decorate_response(headers: &mut HeaderList, path: &str, cache: &CacheControl)
    ensures
        final(headers)@ == decorated(old(headers)@, path@, cache.static_cache@, cache.html_cache@),
{
    apply_opener_policy(headers);
    apply_embedder_policy(headers);
    apply_cache_control(headers, path, cache);
}

proof fn lemma_names_distinct()
    ensures
        opener_name() != embedder_name(),
        opener_name() != cache_control_name(),
        embedder_name() != cache_control_name(),
{
    reveal_strlit("cross-origin-opener-policy");
    reveal_strlit("cross-origin-embedder-policy");
    reveal_strlit("cache-control");
    assert(opener_name().len() != embedder_name().len());
    assert(opener_name().len() != cache_control_name().len());
    assert(embedder_name().len() != cache_control_name().len());
}

proof fn lemma_values_of_added(h: Seq<EntryView>, name: Seq<char>, value: Seq<u8>, other: Seq<char>)
    ensures
        values_of(added_if_absent(h, name, value), other) == (if other == name && !has_header(
            h,
            name,
        ) {
            seq![value]
        } else {
            values_of(h, other)
        }),
{
    lemma_values_of_push(h, (name, value), other);
    if other == name && !has_header(h, name) {
        assert(values_of(h, name) =~= Seq::<Seq<u8>>::empty());
        assert(Seq::<Seq<u8>>::empty().push(value) =~= seq![value]);
    }
}

/// Every response leaves the pipeline with `Cross-Origin-Opener-Policy`: the
/// values that the responder set, unchanged, or else the single `same-origin`.
pub proof fn lemma_opener_policy_present(
    h: Seq<EntryView>,
    path: Seq<char>,
    asset: Seq<char>,
    html: Seq<char>,
)
    ensures
        values_of(decorated(h, path, asset, html), opener_name()) == (if has_header(h, opener_name()) {
            values_of(h, opener_name())
        } else {
            seq![encode_utf8(opener_value())]
        }),
{
    lemma_names_distinct();
    let h1 = opener_stage(h);
    let h2 = embedder_stage(h1);
    lemma_values_of_added(h, opener_name(), encode_utf8(opener_value()), opener_name());
    lemma_values_of_added(h1, embedder_name(), encode_utf8(embedder_value()), opener_name());
    let p = chosen_policy(asset, html, path);
    lemma_values_of_replaced(h2, cache_control_name(), encode_utf8(p), opener_name());
}

/// Every response leaves the pipeline with `Cross-Origin-Embedder-Policy`: the
/// values that the responder set, unchanged, or else the single `require-corp`.
pub proof fn lemma_embedder_policy_present(
    h: Seq<EntryView>,
    path: Seq<char>,
    asset: Seq<char>,
    html: Seq<char>,
)
    ensures
        values_of(decorated(h, path, asset, html), embedder_name()) == (if has_header(
            h,
            embedder_name(),
        ) {
            values_of(h, embedder_name())
        } else {
            seq![encode_utf8(embedder_value())]
        }),
{
    lemma_names_distinct();
    let h1 = opener_stage(h);
    let h2 = embedder_stage(h1);
    lemma_values_of_added(h, opener_name(), encode_utf8(opener_value()), embedder_name());
    lemma_values_of_added(h1, embedder_name(), encode_utf8(embedder_value()), embedder_name());
    let p = chosen_policy(asset, html, path);
    lemma_values_of_replaced(h2, cache_control_name(), encode_utf8(p), embedder_name());
}

/// A document path (`.html`, trailing `/`, or no `.`) leaves the pipeline with
/// the document policy as its one `Cache-Control` value.
pub proof fn lemma_document_paths_get_html_policy(
    h: Seq<EntryView>,
    path: Seq<char>,
    asset: Seq<char>,
    html: Seq<char>,
)
    requires
        html_like(path),
        header_text_ok(html),
    ensures
        values_of(decorated(h, path, asset, html), cache_control_name()) == seq![encode_utf8(html)],
{
    lemma_values_of_replaced(
        embedder_stage(opener_stage(h)),
        cache_control_name(),
        encode_utf8(html),
        cache_control_name(),
    );
}

/// Any other path leaves the pipeline with the asset policy as its one
/// `Cache-Control` value.
pub proof fn lemma_asset_paths_get_asset_policy(
    h: Seq<EntryView>,
    path: Seq<char>,
    asset: Seq<char>,
    html: Seq<char>,
)
    requires
        !html_like(path),
        header_text_ok(asset),
    ensures
        values_of(decorated(h, path, asset, html), cache_control_name()) == seq![encode_utf8(asset)],
{
    lemma_values_of_replaced(
        embedder_stage(opener_stage(h)),
        cache_control_name(),
        encode_utf8(asset),
        cache_control_name(),
    );
}

/// With one uniform policy, every path gets that policy, with no regard to its class.
pub proof fn lemma_uniform_policy_for_every_path(
    h: Seq<EntryView>,
    path: Seq<char>,
    policy: Seq<char>,
)
    requires
        header_text_ok(policy),
    ensures
        values_of(decorated(h, path, policy, policy), cache_control_name()) == seq![
            encode_utf8(policy),
        ],
{
    lemma_values_of_replaced(
        embedder_stage(opener_stage(h)),
        cache_control_name(),
        encode_utf8(policy),
        cache_control_name(),
    );
}

proof fn lemma_without_twice(h: Seq<EntryView>, name: Seq<char>)
    ensures
        without(without(h, name), name) == without(h, name),
    decreases h.len(),
{
    if h.len() > 0 {
        lemma_without_twice(h.drop_last(), name);
        if h.last().0 != name {
            lemma_without_push(without(h.drop_last(), name), h.last(), name);
        }
    }
}

/// Decorating a response a second time, for the same path and policies,
/// changes nothing: the classification and every stage give the same result again.
pub proof fn lemma_decoration_repeatable(
    h: Seq<EntryView>,
    path: Seq<char>,
    asset: Seq<char>,
    html: Seq<char>,
)
    ensures
        decorated(decorated(h, path, asset, html), path, asset, html) == decorated(
            h,
            path,
            asset,
            html,
        ),
{
    lemma_names_distinct();
    let d = decorated(h, path, asset, html);
    let p = chosen_policy(asset, html, path);
    let h2 = embedder_stage(opener_stage(h));
    lemma_opener_policy_present(h, path, asset, html);
    lemma_embedder_policy_present(h, path, asset, html);
    assert(has_header(d, opener_name()));
    assert(has_header(d, embedder_name()));
    assert(opener_stage(d) == d);
    assert(embedder_stage(d) == d);
    if header_text_ok(p) {
        let v = encode_utf8(p);
        lemma_without_push(without(h2, cache_control_name()), (cache_control_name(), v), cache_control_name());
        lemma_without_twice(h2, cache_control_name());
    }
}

} // verus!
