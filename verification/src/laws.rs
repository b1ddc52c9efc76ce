//! Laws: what holds of the codec, of the policy and of the proxy as a
//! whole, proved from the definitions of their parts.

use crate::codec::{
    base64_decoded, bearer, credential_in, credential_of, fields, is_header_text, lemma_fields_join,
    lemma_fields_single, strip_0x, token_of, DecodeError, PartsView,
};
use crate::gateway::{step, ActionView, Event, ForwardOutcome, Settings, Stage};
use crate::policy::{
    admission, authentication, is_pin_path, screening, signed_bytes, verdict_of,
    AdmissionView, CandidateView, ClaimView, Method, RequestHead, ScreeningView, Verdict,
};
use crate::polkadot::{balance_of, sr25519_valid, AccountLookup};
use crate::query::{lemma_map_of_prefix, map_of};
use crate::reason::DenyReason;
use crate::reply::{accepted_reply, bad_request_reply, BAD_REQUEST};
use crate::text::{
    is_blank, lemma_without_absent, occurs_at, trim_end, trim_start, trimmed, without,
};
use vstd::prelude::*;
use vstd::utf8::{encode_utf8, encode_utf8_decode_utf8, encode_utf8_valid_utf8};

verus! {

/// Whether cutting the blanks off both ends of `text` leaves the part from
/// `from` up to `to`: only blanks lie outside, and the part, unless it is
/// empty, starts and ends with something else.
pub open spec fn trims_to(text: Seq<u8>, from: int, to: int) -> bool {
    &&& 0 <= from <= to <= text.len()
    &&& forall|j: int| 0 <= j < from ==> is_blank(#[trigger] text[j])
    &&& forall|j: int| to <= j < text.len() ==> is_blank(#[trigger] text[j])
    &&& from < to ==> !is_blank(text[from]) && !is_blank(text[to - 1])
}

/// Where the leading blanks of `text` end.
pub proof fn lemma_trim_start_at(text: Seq<u8>) -> (from: int)
    ensures
        0 <= from <= text.len(),
        trim_start(text) == text.skip(from),
        forall|j: int| 0 <= j < from ==> is_blank(#[trigger] text[j]),
        from < text.len() ==> !is_blank(text[from]),
    decreases text.len(),
{
    if text.len() > 0 && is_blank(text[0]) {
        let rest = text.skip(1);
        let from = lemma_trim_start_at(rest);
        assert(rest.skip(from) =~= text.skip(from + 1));
        assert forall|j: int| 0 <= j < from + 1 implies is_blank(#[trigger] text[j]) by {
            if j > 0 {
                assert(text[j] == rest[j - 1]);
            }
        }
        if from + 1 < text.len() {
            assert(text[from + 1] == rest[from]);
        }
        from + 1
    } else {
        assert(text.skip(0) =~= text);
        0
    }
}

/// Where the trailing blanks of `text` begin.
pub proof fn lemma_trim_end_at(text: Seq<u8>) -> (to: int)
    ensures
        0 <= to <= text.len(),
        trim_end(text) == text.take(to),
        forall|j: int| to <= j < text.len() ==> is_blank(#[trigger] text[j]),
        0 < to ==> !is_blank(text[to - 1]),
    decreases text.len(),
{
    if text.len() > 0 && is_blank(text.last()) {
        let init = text.drop_last();
        let to = lemma_trim_end_at(init);
        assert(init.take(to) =~= text.take(to));
        assert forall|j: int| to <= j < text.len() implies is_blank(#[trigger] text[j]) by {
            if j < text.len() - 1 {
                assert(text[j] == init[j]);
            }
        }
        if 0 < to {
            assert(text[to - 1] == init[to - 1]);
        }
        to
    } else {
        assert(text.take(text.len() as int) =~= text);
        text.len() as int
    }
}

/// Trimming keeps one stretch of the text: what lies before and after it is
/// blank, and the stretch itself, unless empty, neither starts nor ends
/// with a blank.
pub proof fn trimmed_is_the_core(text: Seq<u8>) -> (ends: (int, int))
    ensures
        trims_to(text, ends.0, ends.1),
        trimmed(text) == text.subrange(ends.0, ends.1),
{
    let from = lemma_trim_start_at(text);
    let head = text.skip(from);
    let to = lemma_trim_end_at(head);
    assert(head.take(to) =~= text.subrange(from, from + to));
    assert forall|j: int| from + to <= j < text.len() implies is_blank(#[trigger] text[j]) by {
        assert(text[j] == head[j - from]);
    }
    if 0 < to {
        assert(head[to - 1] == text[from + to - 1]);
        assert(head[0] == text[from]);
    }
    (from, from + to)
}

/// `parts`, with `sep` between each two of them.
pub open spec fn joined(parts: Seq<Seq<char>>, sep: char) -> Seq<char>
    decreases parts.len(),
{
    if parts.len() == 0 {
        Seq::empty()
    } else if parts.len() == 1 {
        parts[0]
    } else {
        joined(parts.drop_last(), sep) + seq![sep] + parts.last()
    }
}

/// The fields of a text are the text cut at its separators: none of them
/// holds a separator, and with the separators put back between them they
/// are the text again.
pub proof fn fields_cut_at_separators(text: Seq<char>, sep: char)
    ensures
        fields(text, sep).len() >= 1,
        joined(fields(text, sep), sep) == text,
        forall|k: int| 0 <= k < fields(text, sep).len() ==> !(#[trigger] fields(text, sep)[k]).contains(sep),
    decreases text.len(),
{
    let all = fields(text, sep);
    if text.len() == 0 {
        assert(joined(all, sep) =~= text);
    } else {
        let init = fields(text.drop_last(), sep);
        fields_cut_at_separators(text.drop_last(), sep);
        assert(text.drop_last().push(text.last()) =~= text);
        if text.last() == sep {
            assert(all.drop_last() =~= init);
            assert(joined(all, sep) =~= text);
        } else {
            let grown = init.last().push(text.last());
            assert(!grown.contains(sep)) by {
                if grown.contains(sep) {
                    let i = choose|i: int| 0 <= i < grown.len() && grown[i] == sep;
                    assert(init.last()[i] == sep);
                    assert(init[init.len() - 1].contains(sep));
                }
            }
            if init.len() == 1 {
                assert(init[0] == init.last());
                assert(joined(all, sep) =~= text);
            } else {
                assert(all.drop_last() =~= init.drop_last());
                assert(joined(all, sep) =~= joined(init, sep).push(text.last()));
            }
            assert forall|k: int| 0 <= k < all.len() implies !(#[trigger] all[k]).contains(sep) by {
                if k < all.len() - 1 {
                    assert(all[k] == init[k]);
                }
            }
        }
    }
}

/// An address, a `:` and a signature.
pub open spec fn credential_text(address: Seq<char>, signature: Seq<char>) -> Seq<char> {
    address + seq![':'] + signature
}

/// A decoded text holds a credential exactly when it is two texts without
/// a `:` in them and a `:` between the two; the credential is the two
/// texts, each without its `0x`.
pub proof fn credential_is_two_fields(text: Seq<char>)
    ensures
        credential_in(text) is Some <==> exists|a: Seq<char>, b: Seq<char>|
            !a.contains(':') && !b.contains(':') && text == #[trigger] credential_text(a, b),
        forall|a: Seq<char>, b: Seq<char>|
            !a.contains(':') && !b.contains(':') && text == #[trigger] credential_text(a, b)
                ==> credential_in(text) == Some(
                PartsView { address: strip_0x(a), signature: strip_0x(b) },
            ),
{
    assert forall|a: Seq<char>, b: Seq<char>|
        !a.contains(':') && !b.contains(':') && text == #[trigger] credential_text(
            a,
            b,
        ) implies credential_in(text) == Some(
        PartsView { address: strip_0x(a), signature: strip_0x(b) },
    ) by {
        lemma_fields_join(a, b, ':');
        lemma_fields_single(a, ':');
        lemma_fields_single(b, ':');
        assert(fields(text, ':') =~= seq![a, b]);
    }
    if credential_in(text) is Some {
        let f = fields(text, ':');
        fields_cut_at_separators(text, ':');
        assert(f.drop_last() =~= seq![f[0]]);
        assert(joined(f.drop_last(), ':') == f[0]);
        assert(text == credential_text(f[0], f[1]));
    }
}

/// Of several values given for one name, the last one counts; a name that
/// no pair gives has no value.
pub proof fn last_value_wins(pairs: Seq<(Seq<char>, Seq<char>)>, name: Seq<char>)
    ensures
        map_of(pairs).contains_key(name) <==> exists|i: int|
            0 <= i < pairs.len() && (#[trigger] pairs[i]).0 == name,
        forall|i: int|
            0 <= i < pairs.len() && (#[trigger] pairs[i]).0 == name && (forall|j: int|
                i < j < pairs.len() ==> (#[trigger] pairs[j]).0 != name) ==> map_of(pairs)[name]
                == pairs[i].1,
    decreases pairs.len(),
{
    if pairs.len() > 0 {
        let init = pairs.drop_last();
        last_value_wins(init, name);
        if pairs.last().0 == name {
            assert(pairs[pairs.len() - 1].0 == name);
        } else {
            if map_of(pairs).contains_key(name) {
                let i = choose|i: int| 0 <= i < init.len() && (#[trigger] init[i]).0 == name;
                assert(pairs[i].0 == name);
            }
            if exists|i: int| 0 <= i < pairs.len() && (#[trigger] pairs[i]).0 == name {
                let i = choose|i: int| 0 <= i < pairs.len() && (#[trigger] pairs[i]).0 == name;
                assert(init[i].0 == name);
            }
        }
        assert forall|i: int|
            0 <= i < pairs.len() && (#[trigger] pairs[i]).0 == name && (forall|j: int|
                i < j < pairs.len() ==> (#[trigger] pairs[j]).0 != name) implies map_of(pairs)[name]
            == pairs[i].1 by {
            lemma_map_of_prefix(pairs, name, i + 1);
            assert(pairs.take(i + 1).drop_last() =~= pairs.take(i));
            assert(pairs.take(i + 1).last() == pairs[i]);
        }
    }
}

/// `s` with `0x` put in front `n` times.
pub open spec fn with_0x(s: Seq<char>, n: nat) -> Seq<char>
    decreases n,
{
    if n == 0 {
        s
    } else {
        seq!['0', 'x'] + with_0x(s, (n - 1) as nat)
    }
}

/// Stripping undoes any number of `0x` put in front.
pub proof fn lemma_strip_with_0x(s: Seq<char>, n: nat)
    ensures
        strip_0x(with_0x(s, n)) == strip_0x(s),
    decreases n,
{
    if n > 0 {
        let rest = with_0x(s, (n - 1) as nat);
        assert(with_0x(s, n).skip(2) =~= rest);
        lemma_strip_with_0x(s, (n - 1) as nat);
    }
}

/// Putting `0x` in front brings in no separator.
pub proof fn lemma_with_0x_keeps_single(s: Seq<char>, n: nat)
    requires
        !s.contains(':'),
    ensures
        !with_0x(s, n).contains(':'),
    decreases n,
{
    if n > 0 {
        let rest = with_0x(s, (n - 1) as nat);
        lemma_with_0x_keeps_single(s, (n - 1) as nat);
        if with_0x(s, n).contains(':') {
            let i = choose|i: int| 0 <= i < with_0x(s, n).len() && with_0x(s, n)[i] == ':';
            if i >= 2 {
                assert(rest[i - 2] == ':');
            }
        }
    }
}

/// A request that is neither a preflight nor a POST to a pin operation is
/// answered with 400 and `Incorrect api call`. Nothing is asked of the chain
/// and nothing is sent to the backend: the one step it takes ends in the
/// answer.
pub proof fn disallowed_request_is_refused<R, T>(
    head: RequestHead,
    request: R,
    settings: Settings,
    key: Option<Seq<u8>>,
)
    requires
        head.method != Method::Options,
        head.method != Method::Post || !is_pin_path(head.path@),
    ensures
        admission(head, key) == AdmissionView::Denied(DenyReason::NotAllowed),
        step::<R, T>(Stage::Idle, Event::Request(head, request), settings, key) == (
            Stage::<R>::Done,
            ActionView::<R, T>::Respond(bad_request_reply("Incorrect api call"@)),
        ),
{
}

/// A preflight is answered with 202, both cross-origin headers and no
/// body, whatever else the request holds.
pub proof fn preflight_is_accepted<R, T>(
    head: RequestHead,
    request: R,
    settings: Settings,
    key: Option<Seq<u8>>,
)
    requires
        head.method == Method::Options,
    ensures
        step::<R, T>(Stage::Idle, Event::Request(head, request), settings, key) == (
            Stage::<R>::Done,
            ActionView::<R, T>::Respond(accepted_reply()),
        ),
{
}

/// What the backend answers goes to the client as it is: the same value,
/// no part of it read or changed.
pub proof fn backend_response_is_relayed<R, T>(response: T, settings: Settings, key: Option<Seq<u8>>)
    ensures
        step::<R, T>(
            Stage::AwaitingBackend,
            Event::Backend(ForwardOutcome::Responded(response)),
            settings,
            key,
        ) == (Stage::<R>::Done, ActionView::<R, T>::Relay(response)),
{
}

/// The token of `Bearer`, a space and a token is that token, and so is the
/// token of the bare token, as long as the token has no blank at either end
/// and does not hold the marker itself.
pub proof fn token_of_bearer_header(token: Seq<u8>)
    requires
        forall|at: int| !occurs_at(token, bearer(), at),
        token.len() > 0 ==> !is_blank(token.first()) && !is_blank(token.last()),
    ensures
        token_of(bearer() + seq![32u8] + token) == token,
        token_of(token) == token,
{
    let marker = bearer();
    let spaced = seq![32u8] + token;
    let header = marker + spaced;
    assert(header =~= bearer() + seq![32u8] + token);
    assert(header.subrange(0, marker.len() as int) =~= marker);
    assert(header.skip(marker.len() as int) =~= spaced);
    assert forall|at: int| !occurs_at(spaced, marker, at) by {
        if occurs_at(spaced, marker, at) {
            if at == 0 {
                assert(spaced.subrange(0, marker.len() as int)[0] == 32u8);
                assert(marker[0] == 66u8);
            } else {
                assert(token.subrange(at - 1, at - 1 + marker.len()) =~= spaced.subrange(
                    at,
                    at + marker.len(),
                ));
                assert(occurs_at(token, marker, at - 1));
            }
        }
    }
    lemma_without_absent(spaced, marker);
    lemma_without_absent(token, marker);
    assert(without(header, marker) == spaced);
    assert(spaced.skip(1) =~= token);
    assert(trim_start(spaced) == trim_start(token));
    assert(trim_start(token) == token);
    assert(trim_end(token) == token);
}

/// Decoding gives back the address and the signature that were encoded as
/// `base64(address ":" signature)`, with or without `0x` in front of either.
///
/// The fields are taken without a separator in them and without a `0x` of
/// their own in front. That the token is the base64 encoding of the text is
/// said through what the token decodes to.
pub proof fn credential_round_trip(
    header: Seq<u8>,
    address: Seq<char>,
    signature: Seq<char>,
    address_0x: nat,
    signature_0x: nat,
)
    requires
        is_header_text(header),
        base64_decoded(token_of(header)) == Some(
            encode_utf8(
                credential_text(with_0x(address, address_0x), with_0x(signature, signature_0x)),
            ),
        ),
        !address.contains(':'),
        !signature.contains(':'),
        strip_0x(address) == address,
        strip_0x(signature) == signature,
    ensures
        credential_of(header) == Ok::<Option<PartsView>, DecodeError>(
            Some(PartsView { address, signature }),
        ),
{
    let a = with_0x(address, address_0x);
    let s = with_0x(signature, signature_0x);
    let text = a + seq![':'] + s;
    encode_utf8_valid_utf8(text);
    encode_utf8_decode_utf8(text);
    lemma_with_0x_keeps_single(address, address_0x);
    lemma_with_0x_keeps_single(signature, signature_0x);
    lemma_fields_join(a, s, ':');
    lemma_fields_single(a, ':');
    lemma_fields_single(s, ':');
    assert(fields(text, ':') =~= seq![a, s]);
    lemma_strip_with_0x(address, address_0x);
    lemma_strip_with_0x(signature, signature_0x);
}

/// An account is approved exactly when its free balance is at least the
/// minimum: the minimum itself is enough, one unit less is too little.
pub proof fn balance_threshold(free: u128, token_min: u128)
    ensures
        verdict_of(Ok(Some(free)), token_min) == Verdict::Approved <==> free >= token_min,
        free < token_min ==> verdict_of(Ok(Some(free)), token_min) == Verdict::Denied(
            DenyReason::BalanceTooLow,
        ),
        verdict_of(Ok(Some(token_min)), token_min) == Verdict::Approved,
        token_min > 0 ==> verdict_of(Ok(Some((token_min - 1) as u128)), token_min) == Verdict::Denied(
            DenyReason::BalanceTooLow,
        ),
{
}

/// With a balance equal to the minimum the request goes to the backend;
/// with one unit less it is answered with 400 and `Balance too low`.
pub proof fn threshold_decides_forwarding<R, T>(request: R, settings: Settings, key: Option<Seq<u8>>)
    ensures
        step::<R, T>(
            Stage::AwaitingBalance(request),
            Event::Balance(AccountLookup::Entry(Some(settings.token_min))),
            settings,
            key,
        ) == (Stage::<R>::AwaitingBackend, ActionView::<R, T>::Forward(request)),
        settings.token_min > 0 ==> step::<R, T>(
            Stage::AwaitingBalance(request),
            Event::Balance(AccountLookup::Entry(Some((settings.token_min - 1) as u128))),
            settings,
            key,
        ) == (Stage::<R>::Done, ActionView::<R, T>::Respond(bad_request_reply("Balance too low"@))),
{
}

/// A request is given out to be forwarded only on the step that finds the
/// balance of its account sufficient, and it is the request that was kept
/// while the balance was looked up.
pub proof fn forward_only_after_approval<R, T>(
    stage: Stage<R>,
    event: Event<R, T>,
    settings: Settings,
    key: Option<Seq<u8>>,
)
    requires
        step(stage, event, settings, key).1 is Forward || (!(stage is AwaitingBackend) && step(
            stage,
            event,
            settings,
            key,
        ).0 is AwaitingBackend),
    ensures
        ({
            &&& stage matches Stage::AwaitingBalance(request)
            &&& event matches Event::Balance(lookup)
            &&& balance_of(lookup) matches Ok(Some(free))
            &&& free >= settings.token_min
            &&& step(stage, event, settings, key) == (
                Stage::<R>::AwaitingBackend,
                ActionView::<R, T>::Forward(request),
            )
        }),
{
}

/// The chain is asked for a balance, and the request kept to wait for it,
/// only on the step that has seen the request pass every local check:
/// allowed method and path, a credential, an `arg`, and a signature that
/// verifies under the key of the address. The account asked about is the
/// one whose key verified the signature.
pub proof fn balance_query_only_after_signature<R, T>(
    stage: Stage<R>,
    event: Event<R, T>,
    settings: Settings,
    key: Option<Seq<u8>>,
)
    requires
        step(stage, event, settings, key).1 is QueryBalance || (!(stage is AwaitingBalance) && step(
            stage,
            event,
            settings,
            key,
        ).0 is AwaitingBalance),
    ensures
        stage is Idle,
        ({
            &&& event matches Event::Request(head, request)
            &&& head.method == Method::Post
            &&& is_pin_path(head.path@)
            &&& screening(head) matches ScreeningView::Candidate(c)
            &&& key matches Some(k)
            &&& sr25519_valid(c.signature, signed_bytes(c), k)
            &&& step(stage, event, settings, key) == (
                Stage::AwaitingBalance(request),
                ActionView::<R, T>::QueryBalance(ClaimView { address: c.address, account: k }),
            )
        }),
{
}

/// An address that does not decode to a key is denied, as is a signature
/// that does not verify under the key: no candidate gets past either.
pub proof fn unverified_candidate_is_denied(c: CandidateView, key: Option<Seq<u8>>)
    requires
        key matches Some(k) ==> !sr25519_valid(c.signature, signed_bytes(c), k),
    ensures
        key is None ==> authentication(c, key) == AdmissionView::Denied(DenyReason::BadAddress),
        key is Some ==> authentication(c, key) == AdmissionView::Denied(DenyReason::SignatureMismatch),
{
}

/// Every response that the proxy writes itself is a 400, but for the 202
/// that answers a preflight; and with it the handling of the request ends.
pub proof fn own_responses_are_400<R, T>(
    stage: Stage<R>,
    event: Event<R, T>,
    settings: Settings,
    key: Option<Seq<u8>>,
)
    requires
        step(stage, event, settings, key).1 is Respond,
    ensures
        ({
            let reply = step(stage, event, settings, key).1->Respond_0;
            ||| reply.status == BAD_REQUEST
            ||| {
                &&& reply == accepted_reply()
                &&& stage is Idle
                &&& event matches Event::Request(head, _)
                &&& head.method == Method::Options
            }
        }),
        step(stage, event, settings, key).0 is Done,
{
}

/// Once the client has its answer, nothing more is done.
pub proof fn done_is_final<R, T>(event: Event<R, T>, settings: Settings, key: Option<Seq<u8>>)
    ensures
        step(Stage::Done, event, settings, key) == (Stage::<R>::Done, ActionView::<R, T>::Ignore),
{
}

/// The stage that a run of events leads to, from `Idle`. Each event comes
/// with the key that the address of its request decodes to.
pub open spec fn stage_after<R, T>(events: Seq<(Event<R, T>, Option<Seq<u8>>)>, settings: Settings) -> Stage<
    R,
>
    decreases events.len(),
{
    if events.len() == 0 {
        Stage::Idle
    } else {
        step(stage_after(events.drop_last(), settings), events.last().0, settings, events.last().1).0
    }
}

/// What is done at the step `i` of a run of events.
pub open spec fn action_at<R, T>(
    events: Seq<(Event<R, T>, Option<Seq<u8>>)>,
    settings: Settings,
    i: int,
) -> ActionView<R, T> {
    step(stage_after(events.take(i), settings), events[i].0, settings, events[i].1).1
}

/// Whether the step `j` of a run is the one at which `request` came in,
/// passed every local check, and had the chain asked for its balance.
pub open spec fn admitted_at<R, T>(
    events: Seq<(Event<R, T>, Option<Seq<u8>>)>,
    settings: Settings,
    j: int,
    request: R,
) -> bool {
    &&& 0 <= j < events.len()
    &&& action_at(events, settings, j) is QueryBalance
    &&& events[j].0 matches Event::Request(_, r)
    &&& r == request
}

/// A run that waits for the balance of a request has seen that request come
/// in and asked for its balance.
pub proof fn lemma_awaiting_balance_was_admitted<R, T>(
    events: Seq<(Event<R, T>, Option<Seq<u8>>)>,
    settings: Settings,
    request: R,
)
    requires
        stage_after(events, settings) == Stage::AwaitingBalance(request),
    ensures
        exists|j: int| #[trigger] admitted_at(events, settings, j, request),
    decreases events.len(),
{
    if events.len() > 0 {
        let before = events.drop_last();
        let last = events.len() - 1;
        let stage = stage_after(before, settings);
        assert(events.take(last) =~= before);
        if stage is AwaitingBalance {
            assert(stage == Stage::AwaitingBalance(request));
            lemma_awaiting_balance_was_admitted(before, settings, request);
            let j = choose|j: int| #[trigger] admitted_at(before, settings, j, request);
            assert(before.take(j) =~= events.take(j));
            assert(admitted_at(events, settings, j, request));
        } else {
            balance_query_only_after_signature(stage, events.last().0, settings, events.last().1);
            assert(admitted_at(events, settings, last, request));
        }
    }
}

/// In every run of events from `Idle`, a request that is given out to be
/// forwarded has come in at an earlier step and passed every local check
/// there, and the step that gives it out finds the balance sufficient.
pub proof fn forward_follows_admission<R, T>(
    events: Seq<(Event<R, T>, Option<Seq<u8>>)>,
    settings: Settings,
    i: int,
    request: R,
)
    requires
        0 <= i < events.len(),
        action_at(events, settings, i) == ActionView::<R, T>::Forward(request),
    ensures
        exists|j: int| j < i && #[trigger] admitted_at(events, settings, j, request),
        events[i].0 matches Event::Balance(lookup) && verdict_of(balance_of(lookup), settings.token_min)
            == Verdict::Approved,
{
    let before = events.take(i);
    forward_only_after_approval(stage_after(before, settings), events[i].0, settings, events[i].1);
    lemma_awaiting_balance_was_admitted(before, settings, request);
    let j = choose|j: int| #[trigger] admitted_at(before, settings, j, request);
    assert(before.take(j) =~= events.take(j));
    assert(admitted_at(events, settings, j, request));
}

} // verus!
