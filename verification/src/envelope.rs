//! The structured answer to a call. A `downstreamError` that is not null tells the
//! gateway that the call failed.

use vstd::prelude::*;
use crate::json::{items_view, lemma_array_view, member_of, texts_view, Json, JsonView, Members};
use crate::text;
use crate::text::{begins_with, lower, occurs, occurs_at};

verus! {

/// A failure of the directory, as it stands in the answer.
pub open spec fn downstream_error_json(
    kind: Seq<char>,
    message: Seq<char>,
    retryable: bool,
) -> JsonView {
    JsonView::Object(
        map![
            "kind"@ => JsonView::Str(kind),
            "code"@ => JsonView::Str("mcpg.downstream_ldap."@ + kind),
            "message"@ => JsonView::Str(message),
            "retryable"@ => JsonView::Bool(retryable),
            "retryClass"@ => JsonView::Str(
                if retryable {
                    "with_backoff"@
                } else {
                    "do_not_retry"@
                },
            ),
            "suggestedAction"@ => JsonView::Str(
                if retryable {
                    "check_directory_connectivity_and_retry"@
                } else {
                    "inspect_ldap_error"@
                },
            ),
        ],
    )
}

/// A failure of the directory. One that may pass is to be tried again later; a bind or
/// a search that was turned down is not.
pub fn ldap_downstream_error(kind: &str, message: &str, retryable: bool) -> (r: Json)
    ensures
        r@ == downstream_error_json(kind@, message@, retryable),
{
    let code = text::join("mcpg.downstream_ldap.", kind);
    let retry_class = if retryable {
        "with_backoff"
    } else {
        "do_not_retry"
    };
    let action = if retryable {
        "check_directory_connectivity_and_retry"
    } else {
        "inspect_ldap_error"
    };
    Members::new().with("kind", Json::text(kind)).with("code", Json::Str(code)).with(
        "message",
        Json::text(message),
    ).with("retryable", Json::Bool(retryable)).with("retryClass", Json::text(retry_class)).with(
        "suggestedAction",
        Json::text(action),
    ).object()
}

/// Whether a failure is a refusal: the directory turned the bind or the search down.
pub open spec fn rejected(message: Seq<char>) -> bool {
    begins_with(message, "LDAP bind rejected:"@) || begins_with(message, "LDAP search rejected:"@)
}

/// Whether a message tells of a connection that was not made, was lost or took too long.
pub open spec fn tells_of_connection(message: Seq<char>) -> bool {
    ||| occurs("connect"@, lower(message))
    ||| timed_out(message)
    ||| occurs("channel closed"@, lower(message))
    ||| occurs("recv error"@, lower(message))
    ||| occurs("broken pipe"@, lower(message))
    ||| occurs("connection reset"@, lower(message))
}

/// Whether a failure may pass: it is no refusal, and it tells of the connection.
pub open spec fn transient(message: Seq<char>) -> bool {
    !rejected(message) && tells_of_connection(message)
}

/// Whether a failure says that something took too long.
pub open spec fn timed_out(message: Seq<char>) -> bool {
    ||| occurs("timed out"@, lower(message))
    ||| occurs("timeout"@, lower(message))
}

/// What kind of failure a message tells of.
pub open spec fn error_kind(message: Seq<char>) -> Seq<char> {
    if transient(message) {
        "transport_error"@
    } else {
        "ldap_error"@
    }
}

/// The failure that a message tells of, as it stands in the answer.
pub open spec fn classified(message: Seq<char>) -> JsonView {
    downstream_error_json(error_kind(message), message, transient(message))
}

/// The label under which a failed search is counted.
pub open spec fn failure_label(message: Seq<char>) -> Seq<char> {
    if timed_out(message) {
        "timeout"@
    } else if transient(message) {
        "transport_error"@
    } else {
        "ldap_error"@
    }
}

fn is_timeout(message: &str) -> (r: bool)
    ensures
        r == timed_out(message@),
{
    let lower = text::lower_chars(message);
    text::contains(&lower, "timed out") || text::contains(&lower, "timeout")
}

fn is_rejected(message: &str) -> (r: bool)
    ensures
        r == rejected(message@),
{
    text::starts_with(message, "LDAP bind rejected:") || text::starts_with(
        message,
        "LDAP search rejected:",
    )
}

fn is_transient(message: &str) -> (r: bool)
    ensures
        r == transient(message@),
{
    // A directory that turned something down did answer, whatever its words are.
    if is_rejected(message) {
        return false;
    }
    let lower = text::lower_chars(message);
    text::contains(&lower, "connect") || is_timeout(message)
    // A connection that drops, or that was never fully up, shows as the closing of
    // the channel to its driver.
     || text::contains(&lower, "channel closed") || text::contains(&lower, "recv error")
        || text::contains(&lower, "broken pipe") || text::contains(&lower, "connection reset")
}

/// The failure that the message of a search tells of: one of the connection may pass
/// and is to be tried again; a refusal, and any other failure, is a matter of the call
/// or the configuration.
pub fn classify_error(message: &str) -> (r: Json)
    ensures
        r@ == classified(message@),
{
    let retryable = is_transient(message);
    let kind = if retryable {
        "transport_error"
    } else {
        "ldap_error"
    };
    ldap_downstream_error(kind, message, retryable)
}

/// The label under which a failed search is counted.
pub fn label_failure(message: &str) -> (r: &'static str)
    ensures
        r@ == failure_label(message@),
{
    if is_timeout(message) {
        "timeout"
    } else if is_transient(message) {
        "transport_error"
    } else {
        "ldap_error"
    }
}

/// The search that an answer is about.
#[verifier::ext_equal]
pub struct SearchView {
    pub tool_name: Seq<char>,
    pub profile_name: Seq<char>,
    pub url: Seq<char>,
    pub base_dn: Seq<char>,
    pub scope: Seq<char>,
    pub filter: Seq<char>,
    pub attributes: Seq<Seq<char>>,
}

/// A JSON value, or null.
pub open spec fn or_null(j: Option<JsonView>) -> JsonView {
    match j {
        Some(j) => j,
        None => JsonView::Null,
    }
}

/// A list of the value, or an empty one.
pub open spec fn listed(j: Option<JsonView>) -> JsonView {
    match j {
        Some(j) => JsonView::Array(seq![j]),
        None => JsonView::Array(Seq::empty()),
    }
}

/// What was searched for.
pub open spec fn request_json(search: SearchView) -> JsonView {
    JsonView::Object(
        map![
            "url"@ => JsonView::Str(search.url),
            "baseDn"@ => JsonView::Str(search.base_dn),
            "scope"@ => JsonView::Str(search.scope),
            "filter"@ => JsonView::Str(search.filter),
            "attributes"@ => texts_view(search.attributes),
        ],
    )
}

/// What was found, and how long it took.
pub open spec fn response_json(entries: Seq<JsonView>, duration_ms: int) -> JsonView {
    JsonView::Object(
        map![
            "entries"@ => JsonView::Array(entries),
            "count"@ => JsonView::Int(entries.len() as int),
            "durationMs"@ => JsonView::Int(duration_ms),
        ],
    )
}

/// The structured answer.
pub open spec fn envelope_json(
    search: SearchView,
    entries: Option<Seq<JsonView>>,
    duration_ms: int,
    downstream_error: Option<JsonView>,
    error: Option<Seq<char>>,
) -> JsonView {
    JsonView::Object(
        map![
            "toolName"@ => JsonView::Str(search.tool_name),
            "profile"@ => JsonView::Str(search.profile_name),
            "request"@ => request_json(search),
            "response"@ => match entries {
                Some(e) => response_json(e, duration_ms),
                None => JsonView::Null,
            },
            "downstreamError"@ => or_null(downstream_error),
            "downstreamErrors"@ => listed(downstream_error),
            "error"@ => match error {
                Some(e) => JsonView::Str(e),
                None => JsonView::Null,
            },
        ],
    )
}

/// The values of entries that may be missing.
pub open spec fn entries_view(entries: Option<&[Json]>) -> Option<Seq<JsonView>> {
    match entries {
        Some(e) => Some(items_view(e@)),
        None => None,
    }
}

/// The value of a failure that may be missing.
pub open spec fn optional_view(j: Option<&Json>) -> Option<JsonView> {
    match j {
        Some(j) => Some(j@),
        None => None,
    }
}

fn copy_items(items: &[Json]) -> (r: Vec<Json>)
    ensures
        items_view(r@) == items_view(items@),
{
    let mut copy: Vec<Json> = Vec::new();
    let mut i: usize = 0;
    while i < items.len()
        invariant
            i <= items.len(),
            copy@.len() == i,
            forall|k: int| 0 <= k < i ==> (#[trigger] copy@[k])@ == items@[k]@,
        decreases items.len() - i,
    {
        copy.push(items[i].clone());
        i += 1;
    }
    assert(items_view(copy@) =~= items_view(items@));
    copy
}

/// The structured answer to a call. The time taken is given only with entries, and has
/// to fit a JSON number then.
pub fn build_result_envelope(
    tool_name: &str,
    profile_name: &str,
    url: &str,
    base_dn: &str,
    scope: &str,
    resolved_filter: &str,
    attributes: &[String],
    entries: Option<&[Json]>,
    duration_ms: u128,
    downstream_error: Option<&Json>,
    error: Option<&str>,
) -> (r: Json)
    requires
        entries is Some ==> duration_ms <= u64::MAX,
    ensures
        r@ == envelope_json(
            SearchView {
                tool_name: tool_name@,
                profile_name: profile_name@,
                url: url@,
                base_dn: base_dn@,
                scope: scope@,
                filter: resolved_filter@,
                attributes: attributes.deep_view(),
            },
            entries_view(entries),
            duration_ms as int,
            optional_view(downstream_error),
            error.deep_view(),
        ),
{
    let request = Members::new().with("url", Json::text(url)).with(
        "baseDn",
        Json::text(base_dn),
    ).with("scope", Json::text(scope)).with("filter", Json::text(resolved_filter)).with(
        "attributes",
        Json::texts(attributes),
    ).object();
    let response = match entries {
        Some(e) => {
            let list = copy_items(e);
            proof {
                lemma_array_view(list);
            }
            Members::new().with("entries", Json::Array(list)).with(
                "count",
                Json::unsigned(e.len() as u64),
            ).with("durationMs", Json::unsigned(duration_ms as u64)).object()
        },
        None => Json::Null,
    };
    let mut failures: Vec<Json> = Vec::new();
    let failure = match downstream_error {
        Some(d) => {
            failures.push(d.clone());
            d.clone()
        },
        None => Json::Null,
    };
    proof {
        lemma_array_view(failures);
        assert(items_view(failures@) =~= listed(optional_view(downstream_error))->Array_0);
    }
    let error_text = match error {
        Some(e) => Json::text(e),
        None => Json::Null,
    };
    Members::new().with("toolName", Json::text(tool_name)).with(
        "profile",
        Json::text(profile_name),
    ).with("request", request).with("response", response).with("downstreamError", failure).with(
        "downstreamErrors",
        Json::Array(failures),
    ).with("error", error_text).object()
}

/// What stands in a part of a text stands in the text.
proof fn lemma_occurs_in_joined(needle: Seq<char>, a: Seq<char>, b: Seq<char>)
    ensures
        occurs(needle, a) ==> occurs(needle, a + b),
        occurs(needle, b) ==> occurs(needle, a + b),
{
    if occurs(needle, a) {
        let i = choose|i: int| occurs_at(needle, a, i);
        assert((a + b).subrange(i, i + needle.len()) =~= needle);
        assert(occurs_at(needle, a + b, i));
    }
    if occurs(needle, b) {
        let i = choose|i: int| occurs_at(needle, b, i);
        assert((a + b).subrange(i + a.len(), i + a.len() + needle.len()) =~= needle);
        assert(occurs_at(needle, a + b, i + a.len()));
    }
}

/// Two texts made small and joined are the text joined and made small.
proof fn lemma_lower_joined(a: Seq<char>, b: Seq<char>)
    ensures
        lower(a + b) == lower(a) + lower(b),
{
    assert(lower(a + b) =~= lower(a) + lower(b));
}

/// A needle whose characters match nowhere in a prefix is found in what follows it, or
/// not at all.
proof fn lemma_occurs_after(needle: Seq<char>, prefix: Seq<char>, rest: Seq<char>)
    requires
        needle.len() > 0,
        forall|i: int| 0 <= i < prefix.len() ==> !(#[trigger] may_stand(needle, prefix, i)),
    ensures
        occurs(needle, prefix + rest) == occurs(needle, rest),
{
    let hay = prefix + rest;
    lemma_occurs_in_joined(needle, prefix, rest);
    if occurs(needle, hay) {
        let i = choose|i: int| occurs_at(needle, hay, i);
        let found = hay.subrange(i, i + needle.len());
        if i < prefix.len() {
            assert forall|k: int|
                0 <= k < needle.len() && i + k < prefix.len() implies #[trigger] needle[k]
                == prefix[i + k] by {
                assert(found[k] == hay[i + k]);
            }
            assert(may_stand(needle, prefix, i));
        } else {
            let at = i - prefix.len();
            assert(rest.subrange(at, at + needle.len()) =~= found);
            assert(occurs_at(needle, rest, at));
        }
    }
}

/// As far as a prefix goes, nothing speaks against `needle` standing in it at `i`.
spec fn may_stand(needle: Seq<char>, prefix: Seq<char>, i: int) -> bool {
    forall|k: int|
        0 <= k < needle.len() && i + k < prefix.len() ==> #[trigger] needle[k] == prefix[i + k]
}

/// The first three characters of `needle` match nowhere in a prefix.
spec fn clashes(needle: Seq<char>, prefix: Seq<char>) -> bool {
    forall|i: int|
        0 <= i < prefix.len() ==> {
            ||| needle[0] != #[trigger] prefix[i]
            ||| i + 1 < prefix.len() && needle[1] != prefix[i + 1]
            ||| i + 2 < prefix.len() && needle[2] != prefix[i + 2]
        }
}

/// No word that tells of the connection begins in a prefix.
spec fn says_nothing(prefix: Seq<char>) -> bool {
    &&& clashes("connect"@, lower(prefix))
    &&& clashes("timed out"@, lower(prefix))
    &&& clashes("timeout"@, lower(prefix))
    &&& clashes("channel closed"@, lower(prefix))
    &&& clashes("recv error"@, lower(prefix))
    &&& clashes("broken pipe"@, lower(prefix))
    &&& clashes("connection reset"@, lower(prefix))
}

/// How the words that tell of the connection begin.
proof fn lemma_words()
    ensures
        "connect"@.len() >= 3 && "connect"@[0] == 'c' && "connect"@[1] == 'o' && "connect"@[2] == 'n',
        "timed out"@.len() >= 3 && "timed out"@[0] == 't' && "timed out"@[1] == 'i' && "timed out"@[2] == 'm',
        "timeout"@.len() >= 3 && "timeout"@[0] == 't' && "timeout"@[1] == 'i' && "timeout"@[2] == 'm',
        "channel closed"@.len() >= 3 && "channel closed"@[0] == 'c' && "channel closed"@[1] == 'h' && "channel closed"@[2] == 'a',
        "recv error"@.len() >= 3 && "recv error"@[0] == 'r' && "recv error"@[1] == 'e' && "recv error"@[2] == 'c',
        "broken pipe"@.len() >= 3 && "broken pipe"@[0] == 'b' && "broken pipe"@[1] == 'r' && "broken pipe"@[2] == 'o',
        "connection reset"@.len() >= 3 && "connection reset"@[0] == 'c' && "connection reset"@[1] == 'o' && "connection reset"@[2] == 'n',
{
    reveal_strlit("connect");
    reveal_strlit("timed out");
    reveal_strlit("timeout");
    reveal_strlit("channel closed");
    reveal_strlit("recv error");
    reveal_strlit("broken pipe");
    reveal_strlit("connection reset");
}

proof fn lemma_clash(needle: Seq<char>, prefix: Seq<char>, rest: Seq<char>)
    requires
        needle.len() >= 3,
        clashes(needle, prefix),
    ensures
        occurs(needle, prefix + rest) == occurs(needle, rest),
{
    assert forall|i: int| 0 <= i < prefix.len() implies !(#[trigger] may_stand(needle, prefix, i)) by {
        if may_stand(needle, prefix, i) {
            assert(needle[0] == prefix[i + 0]);
            assert(i + 1 < prefix.len() ==> needle[1] == prefix[i + 1]);
            assert(i + 2 < prefix.len() ==> needle[2] == prefix[i + 2]);
        }
    }
    lemma_occurs_after(needle, prefix, rest);
}

/// A prefix that says nothing of the connection leaves it to the detail whether a
/// message tells of it, and of something that took too long.
proof fn lemma_detail_decides(prefix: Seq<char>, detail: Seq<char>)
    requires
        says_nothing(prefix),
    ensures
        tells_of_connection(prefix + detail) == tells_of_connection(detail),
        timed_out(prefix + detail) == timed_out(detail),
{
    lemma_words();
    lemma_lower_joined(prefix, detail);
    lemma_clash("connect"@, lower(prefix), lower(detail));
    lemma_clash("timed out"@, lower(prefix), lower(detail));
    lemma_clash("timeout"@, lower(prefix), lower(detail));
    lemma_clash("channel closed"@, lower(prefix), lower(detail));
    lemma_clash("recv error"@, lower(prefix), lower(detail));
    lemma_clash("broken pipe"@, lower(prefix), lower(detail));
    lemma_clash("connection reset"@, lower(prefix), lower(detail));
}

proof fn lemma_bind_rejected_says_nothing()
    ensures
        says_nothing("LDAP bind rejected: "@),
{
    lemma_words();
    reveal_strlit("LDAP bind rejected: ");
    reveal_strlit("ldap bind rejected: ");
    assert(lower("LDAP bind rejected: "@) =~= "ldap bind rejected: "@);
}

proof fn lemma_bind_failed_says_nothing()
    ensures
        says_nothing("LDAP bind failed: "@),
{
    lemma_words();
    reveal_strlit("LDAP bind failed: ");
    reveal_strlit("ldap bind failed: ");
    assert(lower("LDAP bind failed: "@) =~= "ldap bind failed: "@);
}

proof fn lemma_search_rejected_says_nothing()
    ensures
        says_nothing("LDAP search rejected: "@),
{
    lemma_words();
    reveal_strlit("LDAP search rejected: ");
    reveal_strlit("ldap search rejected: ");
    assert(lower("LDAP search rejected: "@) =~= "ldap search rejected: "@);
}

proof fn lemma_search_failed_says_nothing()
    ensures
        says_nothing("LDAP search failed: "@),
{
    lemma_words();
    reveal_strlit("LDAP search failed: ");
    reveal_strlit("ldap search failed: ");
    assert(lower("LDAP search failed: "@) =~= "ldap search failed: "@);
}

/// A message that does not begin as a refusal does is none, whatever follows.
proof fn lemma_no_refusal(prefix: Seq<char>, detail: Seq<char>, at: int)
    requires
        0 <= at < prefix.len(),
        at < "LDAP bind rejected:"@.len() && prefix[at] != "LDAP bind rejected:"@[at],
        at < "LDAP search rejected:"@.len() && prefix[at] != "LDAP search rejected:"@[at],
    ensures
        !rejected(prefix + detail),
{
    let message = prefix + detail;
    assert(message[at] == prefix[at]);
    if begins_with(message, "LDAP bind rejected:"@) {
        assert(message.subrange(0, "LDAP bind rejected:"@.len() as int)[at] == message[at]);
    }
    if begins_with(message, "LDAP search rejected:"@) {
        assert(message.subrange(0, "LDAP search rejected:"@.len() as int)[at] == message[at]);
    }
}

/// A message that begins with a refusal is one.
proof fn lemma_refusal(detail: Seq<char>)
    ensures
        rejected("LDAP bind rejected: "@ + detail),
        rejected("LDAP search rejected: "@ + detail),
{
    reveal_strlit("LDAP bind rejected:");
    reveal_strlit("LDAP bind rejected: ");
    reveal_strlit("LDAP search rejected:");
    reveal_strlit("LDAP search rejected: ");
    assert(("LDAP bind rejected: "@ + detail).subrange(0, 19) =~= "LDAP bind rejected:"@);
    assert(("LDAP search rejected: "@ + detail).subrange(0, 21) =~= "LDAP search rejected:"@);
}

/// Of a bind or a search that got no answer, the client's own words decide whether the
/// failure may pass, and whether something took too long.
pub proof fn law_detail_decides(detail: Seq<char>)
    ensures
        transient("LDAP bind failed: "@ + detail) == tells_of_connection(detail),
        transient("LDAP search failed: "@ + detail) == tells_of_connection(detail),
        timed_out("LDAP bind failed: "@ + detail) == timed_out(detail),
        timed_out("LDAP search failed: "@ + detail) == timed_out(detail),
{
    lemma_bind_failed_says_nothing();
    lemma_search_failed_says_nothing();
    lemma_detail_decides("LDAP bind failed: "@, detail);
    lemma_detail_decides("LDAP search failed: "@, detail);
    reveal_strlit("LDAP bind failed: ");
    reveal_strlit("LDAP search failed: ");
    reveal_strlit("LDAP bind rejected:");
    reveal_strlit("LDAP search rejected:");
    lemma_no_refusal("LDAP bind failed: "@, detail, 10);
    lemma_no_refusal("LDAP search failed: "@, detail, 12);
}

/// A bind or a search that was turned down is not to be tried again, whatever the
/// directory's words are. It is counted as turned down, unless those words tell of
/// something that took too long.
pub proof fn law_rejections_are_final(detail: Seq<char>)
    ensures
        classified("LDAP bind rejected: "@ + detail) == downstream_error_json(
            "ldap_error"@,
            "LDAP bind rejected: "@ + detail,
            false,
        ),
        classified("LDAP search rejected: "@ + detail) == downstream_error_json(
            "ldap_error"@,
            "LDAP search rejected: "@ + detail,
            false,
        ),
        failure_label("LDAP bind rejected: "@ + detail) == if timed_out(detail) {
            "timeout"@
        } else {
            "ldap_error"@
        },
        failure_label("LDAP search rejected: "@ + detail) == if timed_out(detail) {
            "timeout"@
        } else {
            "ldap_error"@
        },
{
    lemma_refusal(detail);
    lemma_bind_rejected_says_nothing();
    lemma_search_rejected_says_nothing();
    lemma_detail_decides("LDAP bind rejected: "@, detail);
    lemma_detail_decides("LDAP search rejected: "@, detail);
}

/// A connection that could not be made may be tried again, whatever the reason was.
pub proof fn law_connect_failures_may_pass(detail: Seq<char>)
    ensures
        classified("LDAP connect failed: "@ + detail) == downstream_error_json(
            "transport_error"@,
            "LDAP connect failed: "@ + detail,
            true,
        ),
{
    let prefix = "LDAP connect failed: "@;
    reveal_strlit("LDAP connect failed: ");
    reveal_strlit("LDAP bind rejected:");
    reveal_strlit("LDAP search rejected:");
    reveal_strlit("connect");
    lemma_no_refusal(prefix, detail, 5);
    assert(lower(prefix).subrange(5, 12) =~= "connect"@);
    assert(occurs_at("connect"@, lower(prefix), 5));
    lemma_lower_joined(prefix, detail);
    lemma_occurs_in_joined("connect"@, lower(prefix), lower(detail));
}

/// What took too long may be tried again, unless it was turned down; and it is counted
/// as such.
pub proof fn law_timeouts_may_pass(message: Seq<char>)
    requires
        timed_out(message),
    ensures
        !rejected(message) ==> classified(message) == downstream_error_json(
            "transport_error"@,
            message,
            true,
        ),
        failure_label(message) == "timeout"@,
{
}

/// The case of ASCII letters does not matter to whether a failure tells of the
/// connection, nor to how it is taken, but for the words that begin a refusal.
pub proof fn law_case_does_not_matter(a: Seq<char>, b: Seq<char>)
    requires
        lower(a) == lower(b),
    ensures
        tells_of_connection(a) == tells_of_connection(b),
        timed_out(a) == timed_out(b),
        rejected(a) == rejected(b) ==> error_kind(a) == error_kind(b) && failure_label(a)
            == failure_label(b),
{
}

/// What a failure object holds. It is to be retried, with backoff and after a look at
/// the connection, exactly where it is a failure of transport.
pub proof fn law_error_object(message: Seq<char>)
    ensures
        member_of(classified(message), "kind"@) == Some(JsonView::Str(error_kind(message))),
        member_of(classified(message), "code"@) == Some(
            JsonView::Str("mcpg.downstream_ldap."@ + error_kind(message)),
        ),
        member_of(classified(message), "message"@) == Some(JsonView::Str(message)),
        member_of(classified(message), "retryable"@) == Some(
            JsonView::Bool(error_kind(message) == "transport_error"@),
        ),
        member_of(classified(message), "retryClass"@) == Some(
            JsonView::Str(
                if error_kind(message) == "transport_error"@ {
                    "with_backoff"@
                } else {
                    "do_not_retry"@
                },
            ),
        ),
        member_of(classified(message), "suggestedAction"@) == Some(
            JsonView::Str(
                if error_kind(message) == "transport_error"@ {
                    "check_directory_connectivity_and_retry"@
                } else {
                    "inspect_ldap_error"@
                },
            ),
        ),
{
    reveal_strlit("kind");
    reveal_strlit("code");
    reveal_strlit("message");
    reveal_strlit("retryable");
    reveal_strlit("retryClass");
    reveal_strlit("suggestedAction");
    reveal_strlit("transport_error");
    reveal_strlit("ldap_error");
    assert("kind"@[0] != "code"@[0]);
    assert("kind"@.len() == 4 && "code"@.len() == 4 && "message"@.len() == 7 && "retryable"@.len()
        == 9 && "retryClass"@.len() == 10 && "suggestedAction"@.len() == 15);
    assert("transport_error"@.len() != "ldap_error"@.len());
}

/// What an answer holds: entries and no failure, or a failure and no entries, as it was
/// given; and the failure, if any, in a list of its own.
pub proof fn law_envelope_members(
    search: SearchView,
    entries: Option<Seq<JsonView>>,
    duration_ms: int,
    downstream_error: Option<JsonView>,
    error: Option<Seq<char>>,
)
    ensures
        ({
            let e = envelope_json(search, entries, duration_ms, downstream_error, error);
            &&& member_of(e, "toolName"@) == Some(JsonView::Str(search.tool_name))
            &&& member_of(e, "profile"@) == Some(JsonView::Str(search.profile_name))
            &&& member_of(e, "request"@) == Some(request_json(search))
            &&& member_of(e, "response"@) == Some(
                match entries {
                    Some(found) => response_json(found, duration_ms),
                    None => JsonView::Null,
                },
            )
            &&& member_of(e, "downstreamError"@) == Some(or_null(downstream_error))
            &&& member_of(e, "downstreamErrors"@) == Some(listed(downstream_error))
            &&& member_of(e, "error"@) == Some(
                match error {
                    Some(text) => JsonView::Str(text),
                    None => JsonView::Null,
                },
            )
        }),
{
    reveal_strlit("toolName");
    reveal_strlit("profile");
    reveal_strlit("request");
    reveal_strlit("response");
    reveal_strlit("downstreamError");
    reveal_strlit("downstreamErrors");
    reveal_strlit("error");
    assert("toolName"@[0] != "response"@[0] && "profile"@[0] != "request"@[0]);
    assert("toolName"@.len() == 8 && "response"@.len() == 8 && "profile"@.len() == 7
        && "request"@.len() == 7 && "downstreamError"@.len() == 15 && "downstreamErrors"@.len() == 16
        && "error"@.len() == 5);
}

proof fn lemma_bind_credential_says_nothing()
    ensures
        says_nothing("bind credential: "@),
{
    lemma_words();
    reveal_strlit("bind credential: ");
    assert(lower("bind credential: "@) =~= "bind credential: "@);
}

proof fn lemma_evaluating_filter_says_nothing()
    ensures
        says_nothing("evaluating filter: "@),
{
    lemma_words();
    reveal_strlit("evaluating filter: ");
    assert(lower("evaluating filter: "@) =~= "evaluating filter: "@);
}

proof fn lemma_retryable(message: Seq<char>)
    ensures
        member_of(classified(message), "retryable"@) == Some(JsonView::Bool(transient(message))),
{
    law_error_object(message);
    reveal_strlit("transport_error");
    reveal_strlit("ldap_error");
    assert("transport_error"@.len() != "ldap_error"@.len());
}

/// A failure is to be tried again exactly where one of the words that tell of the
/// connection stands in it, in capitals or not, and it does not begin as a refusal does.
pub proof fn law_when_a_failure_may_pass(message: Seq<char>)
    ensures
        member_of(classified(message), "retryable"@) == Some(JsonView::Bool(true)) || member_of(
            classified(message),
            "retryable"@,
        ) == Some(JsonView::Bool(false)),
        member_of(classified(message), "retryable"@) == Some(JsonView::Bool(true)) <==> {
            &&& !begins_with(message, "LDAP bind rejected:"@)
            &&& !begins_with(message, "LDAP search rejected:"@)
            &&& {
                ||| occurs("connect"@, lower(message))
                ||| occurs("timed out"@, lower(message))
                ||| occurs("timeout"@, lower(message))
                ||| occurs("channel closed"@, lower(message))
                ||| occurs("recv error"@, lower(message))
                ||| occurs("broken pipe"@, lower(message))
                ||| occurs("connection reset"@, lower(message))
            }
        },
{
    lemma_retryable(message);
}

/// What the library puts in front of a detail does not make a failure one to try again,
/// unless it is that the connection could not be made: the detail has to tell of the
/// connection. A refusal is never one to try again.
pub proof fn law_words_in_front_do_not_decide(detail: Seq<char>)
    ensures
        ({
            let told = {
                ||| occurs("connect"@, lower(detail))
                ||| occurs("timed out"@, lower(detail))
                ||| occurs("timeout"@, lower(detail))
                ||| occurs("channel closed"@, lower(detail))
                ||| occurs("recv error"@, lower(detail))
                ||| occurs("broken pipe"@, lower(detail))
                ||| occurs("connection reset"@, lower(detail))
            };
            &&& member_of(classified("bind credential: "@ + detail), "retryable"@) == Some(
                JsonView::Bool(told),
            )
            &&& member_of(classified("evaluating filter: "@ + detail), "retryable"@) == Some(
                JsonView::Bool(told),
            )
            &&& member_of(classified("LDAP bind failed: "@ + detail), "retryable"@) == Some(
                JsonView::Bool(told),
            )
            &&& member_of(classified("LDAP search failed: "@ + detail), "retryable"@) == Some(
                JsonView::Bool(told),
            )
            &&& member_of(classified("LDAP connect failed: "@ + detail), "retryable"@) == Some(
                JsonView::Bool(true),
            )
            &&& member_of(classified("LDAP bind rejected: "@ + detail), "retryable"@) == Some(
                JsonView::Bool(false),
            )
            &&& member_of(classified("LDAP search rejected: "@ + detail), "retryable"@) == Some(
                JsonView::Bool(false),
            )
        }),
{
    lemma_retryable("bind credential: "@ + detail);
    lemma_retryable("evaluating filter: "@ + detail);
    lemma_retryable("LDAP bind failed: "@ + detail);
    lemma_retryable("LDAP search failed: "@ + detail);
    lemma_retryable("LDAP connect failed: "@ + detail);
    lemma_retryable("LDAP bind rejected: "@ + detail);
    lemma_retryable("LDAP search rejected: "@ + detail);
    law_detail_decides(detail);
    lemma_refusal(detail);
    assert(transient("LDAP connect failed: "@ + detail)) by {
        let prefix = "LDAP connect failed: "@;
        reveal_strlit("LDAP connect failed: ");
        reveal_strlit("LDAP bind rejected:");
        reveal_strlit("LDAP search rejected:");
        reveal_strlit("connect");
        lemma_no_refusal(prefix, detail, 5);
        assert(lower(prefix).subrange(5, 12) =~= "connect"@);
        assert(occurs_at("connect"@, lower(prefix), 5));
        lemma_lower_joined(prefix, detail);
        lemma_occurs_in_joined("connect"@, lower(prefix), lower(detail));
    }
    lemma_bind_credential_says_nothing();
    lemma_evaluating_filter_says_nothing();
    lemma_detail_decides("bind credential: "@, detail);
    lemma_detail_decides("evaluating filter: "@, detail);
    assert(!rejected("bind credential: "@ + detail) && !rejected("evaluating filter: "@ + detail))
        by {
        reveal_strlit("bind credential: ");
        reveal_strlit("evaluating filter: ");
        reveal_strlit("LDAP bind rejected:");
        reveal_strlit("LDAP search rejected:");
        lemma_no_refusal("bind credential: "@, detail, 0);
        lemma_no_refusal("evaluating filter: "@, detail, 0);
    }
}

/// A failure to be tried again is one of transport, and no other is.
pub proof fn law_kinds_of_failure(message: Seq<char>)
    ensures
        member_of(classified(message), "kind"@) == Some(JsonView::Str("transport_error"@))
            <==> member_of(classified(message), "retryable"@) == Some(JsonView::Bool(true)),
        member_of(classified(message), "kind"@) == Some(JsonView::Str("ldap_error"@))
            <==> member_of(classified(message), "retryable"@) == Some(JsonView::Bool(false)),
{
    law_error_object(message);
    lemma_retryable(message);
    reveal_strlit("transport_error");
    reveal_strlit("ldap_error");
    assert("transport_error"@.len() != "ldap_error"@.len());
}

/// What a failed search is counted under: that it took too long, where its message says
/// so; else that the connection failed, where it is one to be tried again; else that
/// something was wrong with the search.
pub proof fn law_failure_labels(message: Seq<char>)
    ensures
        ({
            let late = occurs("timed out"@, lower(message)) || occurs("timeout"@, lower(message));
            let passes = member_of(classified(message), "retryable"@) == Some(
                JsonView::Bool(true),
            );
            &&& late ==> failure_label(message) == "timeout"@
            &&& !late && passes ==> failure_label(message) == "transport_error"@
            &&& !late && !passes ==> failure_label(message) == "ldap_error"@
        }),
{
    lemma_retryable(message);
}

/// What a failure holds, whatever it is of, and that it holds no more.
pub proof fn law_failure_members(kind: Seq<char>, message: Seq<char>, retryable: bool)
    ensures
        ({
            let e = downstream_error_json(kind, message, retryable);
            &&& member_of(e, "kind"@) == Some(JsonView::Str(kind))
            &&& member_of(e, "code"@) == Some(JsonView::Str("mcpg.downstream_ldap."@ + kind))
            &&& member_of(e, "message"@) == Some(JsonView::Str(message))
            &&& member_of(e, "retryable"@) == Some(JsonView::Bool(retryable))
            &&& retryable ==> member_of(e, "retryClass"@) == Some(JsonView::Str("with_backoff"@))
                && member_of(e, "suggestedAction"@) == Some(
                JsonView::Str("check_directory_connectivity_and_retry"@),
            )
            &&& !retryable ==> member_of(e, "retryClass"@) == Some(JsonView::Str("do_not_retry"@))
                && member_of(e, "suggestedAction"@) == Some(JsonView::Str("inspect_ldap_error"@))
            &&& forall|name: Seq<char>|
                name != "kind"@ && name != "code"@ && name != "message"@ && name != "retryable"@
                    && name != "retryClass"@ && name != "suggestedAction"@ ==> (
                #[trigger] member_of(e, name)) is None
        }),
{
    reveal_strlit("kind");
    reveal_strlit("code");
    reveal_strlit("message");
    reveal_strlit("retryable");
    reveal_strlit("retryClass");
    reveal_strlit("suggestedAction");
    assert("kind"@[0] != "code"@[0]);
    assert("kind"@.len() == 4 && "code"@.len() == 4 && "message"@.len() == 7 && "retryable"@.len()
        == 9 && "retryClass"@.len() == 10 && "suggestedAction"@.len() == 15);
}

/// What an answer says of the search: its members, each what it is named after, and no
/// more.
pub proof fn law_request_members(search: SearchView)
    ensures
        member_of(request_json(search), "url"@) == Some(JsonView::Str(search.url)),
        member_of(request_json(search), "baseDn"@) == Some(JsonView::Str(search.base_dn)),
        member_of(request_json(search), "scope"@) == Some(JsonView::Str(search.scope)),
        member_of(request_json(search), "filter"@) == Some(JsonView::Str(search.filter)),
        member_of(request_json(search), "attributes"@) matches Some(JsonView::Array(items))
            && items.len() == search.attributes.len() && forall|i: int|
            0 <= i < items.len() ==> #[trigger] items[i] == JsonView::Str(search.attributes[i]),
        forall|name: Seq<char>|
            name != "url"@ && name != "baseDn"@ && name != "scope"@ && name != "filter"@ && name
                != "attributes"@ ==> (#[trigger] member_of(request_json(search), name)) is None,
{
    reveal_strlit("url");
    reveal_strlit("baseDn");
    reveal_strlit("scope");
    reveal_strlit("filter");
    reveal_strlit("attributes");
    assert("baseDn"@[0] != "filter"@[0]);
    assert("url"@.len() == 3 && "baseDn"@.len() == 6 && "scope"@.len() == 5 && "filter"@.len() == 6
        && "attributes"@.len() == 10);
}

/// An answer holds its seven members and what was found its three, and neither holds
/// more. A failure stands in the answer twice, by itself and in a list of one; where there
/// is none, there is null and an empty list.
pub proof fn law_answer_holds_no_more(
    search: SearchView,
    entries: Option<Seq<JsonView>>,
    duration_ms: int,
    downstream_error: Option<JsonView>,
    error: Option<Seq<char>>,
    name: Seq<char>,
)
    ensures
        ({
            let e = envelope_json(search, entries, duration_ms, downstream_error, error);
            &&& member_of(e, name) is Some <==> name == "toolName"@ || name == "profile"@ || name
                == "request"@ || name == "response"@ || name == "downstreamError"@ || name
                == "downstreamErrors"@ || name == "error"@
            &&& downstream_error matches Some(failure) ==> member_of(e, "downstreamError"@)
                == Some(failure) && member_of(e, "downstreamErrors"@) == Some(
                JsonView::Array(seq![failure]),
            )
            &&& downstream_error is None ==> member_of(e, "downstreamError"@) == Some(
                JsonView::Null,
            ) && member_of(e, "downstreamErrors"@) == Some(JsonView::Array(Seq::empty()))
        }),
        entries matches Some(found) ==> (member_of(response_json(found, duration_ms), name) is Some
            <==> name == "entries"@ || name == "count"@ || name == "durationMs"@),
{
    law_envelope_members(search, entries, duration_ms, downstream_error, error);
}

/// What an answer is made of is taken as it is: every entry in its place, and the failure.
pub proof fn law_parts_are_taken_as_they_are(entries: &[Json], failure: &Json)
    ensures
        entries_view(Some(entries)) matches Some(items) && items.len() == entries@.len() && forall|
            i: int,
        |
            0 <= i < items.len() ==> #[trigger] items[i] == entries@[i]@,
        entries_view(None) is None,
        optional_view(Some(failure)) == Some(failure@),
        optional_view(None) is None,
{
}

} // verus!
