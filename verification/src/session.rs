//! Session-store logic: the stored message shape, key naming, title
//! derivation from the first user message, which transcript roles are
//! persisted, and most-recently-updated-first ordering of the session list.
//! The key-value store itself is an outside collaborator.

use vstd::prelude::*;
use vstd::string::StringExecFns;
use vstd::seq_lib::group_to_multiset_ensures;
use crate::text::str_eq;
use crate::text::spec_truncate;
use crate::text::truncate_message;
use crate::providers::Message;

verus! {

/// A persisted chat message: only its role and content are stored.
#[derive(Clone, Debug)]
pub struct StoredMessage {
    pub role: String,
    pub content: String,
}

/// The abstract value of a stored message.
#[verifier::ext_equal]
pub struct StoredMessageView {
    pub role: Seq<char>,
    pub content: Seq<char>,
}

impl View for StoredMessage {
    type V = StoredMessageView;

    open spec fn view(&self) -> StoredMessageView {
        StoredMessageView { role: self.role@, content: self.content@ }
    }
}

/// One stored session's metadata.
#[derive(Clone, Debug)]
pub struct ConversationInfo {
    pub id: String,
    pub title: String,
    pub created_at: i64,
    pub updated_at: i64,
    pub message_count: usize,
}

/// The store key a session's transcript lives under.
pub fn session_key(id: &str) -> (r: String)
    ensures
        r@ == "zeteo:session:"@ + id@,
{
    let mut out = String::new();
    out.append("zeteo:session:");
    out.append(id);
    out
}

/// The content of the first user-role message, if any.
pub open spec fn spec_first_user_content(msgs: Seq<StoredMessageView>) -> Option<Seq<char>>
    decreases msgs.len(),
{
    if msgs.len() == 0 {
        None
    } else if msgs[0].role == "user"@ {
        Some(msgs[0].content)
    } else {
        spec_first_user_content(msgs.skip(1))
    }
}

proof fn lemma_first_user_skip(msgs: Seq<StoredMessageView>, i: int)
    requires
        0 <= i <= msgs.len(),
        forall|j: int| 0 <= j < i ==> (#[trigger] msgs[j]).role != "user"@,
    ensures
        spec_first_user_content(msgs) == spec_first_user_content(msgs.skip(i)),
    decreases i,
{
    if i > 0 {
        assert(spec_first_user_content(msgs) == spec_first_user_content(msgs.skip(1)));
        assert(forall|j: int| 0 <= j < i - 1 ==> (#[trigger] msgs.skip(1)[j]).role != "user"@);
        lemma_first_user_skip(msgs.skip(1), i - 1);
        assert(msgs.skip(1).skip(i - 1) =~= msgs.skip(i));
    } else {
        assert(msgs.skip(0) =~= msgs);
    }
}

/// What the derived session title is: the first user message's content,
/// truncated to 50 characters with an ellipsis when longer; with no user
/// message the title reads `New conversation`.
pub open spec fn spec_title(msgs: Seq<StoredMessageView>) -> Seq<char> {
    match spec_first_user_content(msgs) {
        Some(c) => spec_truncate(c, 50),
        None => "New conversation"@,
    }
}

/// Derives a session's title from its stored messages.
pub fn derive_title(msgs: &Vec<StoredMessage>) -> (r: String)
    ensures
        r@ == spec_title(msgs@.map_values(|m: StoredMessage| m@)),
{
    let ghost mv = msgs@.map_values(|m: StoredMessage| m@);
    let mut i: usize = 0;
    while i < msgs.len()
        invariant
            0 <= i <= msgs@.len(),
            mv == msgs@.map_values(|m: StoredMessage| m@),
            forall|j: int| 0 <= j < i ==> (#[trigger] mv[j]).role != "user"@,
        decreases msgs@.len() - i,
    {
        if str_eq(msgs[i].role.as_str(), "user") {
            proof {
                lemma_first_user_skip(mv, i as int);
                assert(mv.skip(i as int)[0] == mv[i as int]);
            }
            return truncate_message(msgs[i].content.as_str(), 50);
        }
        assert(mv[i as int].role != "user"@);
        i = i + 1;
    }
    proof {
        lemma_first_user_skip(mv, mv.len() as int);
        assert(mv.skip(mv.len() as int).len() == 0);
    }
    "New conversation".to_owned()
}

/// True of the transcript roles that are persisted: user and assistant
/// turns; tool traffic and local errors are not stored.
pub open spec fn spec_is_stored_role(role: Seq<char>) -> bool {
    role == "user"@ || role == "assistant"@
}

/// Restricts a transcript to its persisted messages: the user and assistant
/// entries, in order, reduced to role and content.
pub fn messages_for_storage(history: &Vec<Message>) -> (r: Vec<StoredMessage>)
    ensures
        r@.map_values(|m: StoredMessage| m@) == history@.map_values(|m: Message| m@).filter(
            |m: crate::providers::MessageView| spec_is_stored_role(m.role),
        ).map_values(
            |m: crate::providers::MessageView|
                StoredMessageView { role: m.role, content: m.content },
        ),
{
    let ghost hv = history@.map_values(|m: Message| m@);
    let ghost reduce = |m: crate::providers::MessageView|
        StoredMessageView { role: m.role, content: m.content };
    let ghost pred = |m: crate::providers::MessageView| spec_is_stored_role(m.role);
    let mut out: Vec<StoredMessage> = Vec::new();
    assert(hv.subrange(0, 0) =~= Seq::<crate::providers::MessageView>::empty());
    assert(Seq::<crate::providers::MessageView>::empty().filter(pred).map_values(reduce)
        =~= Seq::<StoredMessageView>::empty()) by {
        reveal(Seq::filter);
    }
    let mut i: usize = 0;
    while i < history.len()
        invariant
            0 <= i <= history@.len(),
            hv == history@.map_values(|m: Message| m@),
            pred == (|m: crate::providers::MessageView| spec_is_stored_role(m.role)),
            reduce == (|m: crate::providers::MessageView|
                StoredMessageView { role: m.role, content: m.content }),
            out@.map_values(|m: StoredMessage| m@) == hv.subrange(0, i as int).filter(
                pred,
            ).map_values(reduce),
        decreases history@.len() - i,
    {
        let m = &history[i];
        let keep = str_eq(m.role.as_str(), "user") || str_eq(m.role.as_str(), "assistant");
        proof {
            let pfx = hv.subrange(0, i as int);
            let nxt = hv.subrange(0, i + 1);
            assert(nxt.drop_last() =~= pfx);
            assert(nxt.last() == hv[i as int]);
            assert(hv[i as int] == history@[i as int]@);
            reveal(Seq::filter);
        }
        if keep {
            let ghost old_map = out@.map_values(|m2: StoredMessage| m2@);
            let sm = StoredMessage { role: m.role.clone(), content: m.content.clone() };
            let ghost smv = sm@;
            out.push(sm);
            proof {
                assert forall|j: int| 0 <= j < out@.len() implies out@.map_values(
                    |m2: StoredMessage| m2@,
                )[j] == #[trigger] old_map.push(smv)[j] by {
                    assert(out@.map_values(|m2: StoredMessage| m2@)[j] == out@[j]@);
                    if j < old_map.len() {
                        assert(old_map[j] == out@[j]@);
                    }
                }
                assert(out@.map_values(|m2: StoredMessage| m2@) =~= old_map.push(smv));
                assert(hv.subrange(0, i + 1).filter(pred) =~= hv.subrange(0, i as int).filter(
                    pred,
                ).push(hv[i as int]));
                assert(hv.subrange(0, i + 1).filter(pred).map_values(reduce) =~= hv.subrange(
                    0,
                    i as int,
                ).filter(pred).map_values(reduce).push(reduce(hv[i as int])));
                assert(smv == reduce(hv[i as int]));
            }
        } else {
            assert(out@.map_values(|m2: StoredMessage| m2@) =~= hv.subrange(0, i + 1).filter(
                pred,
            ).map_values(reduce));
        }
        i = i + 1;
    }
    assert(hv.subrange(0, hv.len() as int) =~= hv);
    out
}

/// True when the sessions stand most-recently-updated first.
pub open spec fn spec_sorted_desc(s: Seq<ConversationInfo>) -> bool {
    forall|i: int, j: int|
        0 <= i < j < s.len() ==> (#[trigger] s[i]).updated_at >= (#[trigger] s[j]).updated_at
}

/// How many sessions the session list shows at most.
pub const SESSION_LIST_LIMIT: usize = 20;

/// Orders sessions most-recently-updated first and keeps at most the first
/// 20; what is kept is drawn from the input without invention (the result's
/// multiset is contained in the input's), and everything dropped was
/// updated no later than everything kept.
pub fn sort_sessions(v: Vec<ConversationInfo>) -> (r: Vec<ConversationInfo>)
    ensures
        spec_sorted_desc(r@),
        r@.len() == if v@.len() <= 20 {
            v@.len() as int
        } else {
            20int
        },
        r@.to_multiset().subset_of(v@.to_multiset()),
        forall|x: ConversationInfo|
            #[trigger] v@.to_multiset().sub(r@.to_multiset()).count(x) > 0 ==> (r@.len() == 0
                || x.updated_at <= r@[r@.len() - 1].updated_at),
{
    broadcast use group_to_multiset_ensures;

    let ghost orig = v@;
    let mut rest = v;
    let mut out: Vec<ConversationInfo> = Vec::new();
    while rest.len() > 0
        invariant
            out@.to_multiset().add(rest@.to_multiset()) =~= orig.to_multiset(),
            spec_sorted_desc(out@),
            forall|a: int, b: int|
                0 <= a < out@.len() && 0 <= b < rest@.len() ==> (#[trigger] out@[a]).updated_at
                    >= (#[trigger] rest@[b]).updated_at,
            out@.len() + rest@.len() == orig.len(),
        decreases rest@.len(),
    {
        let mut best: usize = 0;
        let mut k: usize = 1;
        while k < rest.len()
            invariant
                0 <= best < rest@.len(),
                best < k <= rest@.len() || (k <= rest@.len() && best == 0),
                forall|j: int|
                    0 <= j < k ==> (#[trigger] rest@[j]).updated_at
                        <= rest@[best as int].updated_at,
            decreases rest@.len() - k,
        {
            if rest[k].updated_at > rest[best].updated_at {
                best = k;
            }
            k = k + 1;
        }
        let ghost old_rest = rest@;
        let ghost old_out = out@;
        let picked = rest.remove(best);
        out.push(picked);
        proof {
            broadcast use group_to_multiset_ensures;
            broadcast use vstd::multiset::group_multiset_axioms;

            let x = old_rest[best as int];
            assert(rest@ == old_rest.remove(best as int));
            assert(old_rest.remove(best as int).to_multiset() =~= old_rest.to_multiset().remove(
                x,
            ));
            assert(out@ == old_out.push(x));
            assert(old_out.push(x).to_multiset() =~= old_out.to_multiset().insert(x));
            assert(old_rest.contains(x));
            assert(old_rest.to_multiset().count(x) > 0);
            assert(out@.to_multiset().add(rest@.to_multiset()) =~= orig.to_multiset());
            assert forall|a: int, b: int|
                0 <= a < out@.len() && 0 <= b < rest@.len() implies (#[trigger] out@[a]).updated_at
                >= (#[trigger] rest@[b]).updated_at by {
                if a < old_out.len() {
                    assert(out@[a] == old_out[a]);
                    if b < best {
                        assert(rest@[b] == old_rest[b]);
                    } else {
                        assert(rest@[b] == old_rest[b + 1]);
                    }
                } else {
                    assert(out@[a] == old_rest[best as int]);
                    if b < best {
                        assert(rest@[b] == old_rest[b]);
                    } else {
                        assert(rest@[b] == old_rest[b + 1]);
                    }
                }
            }
        }
    }
    proof {
        broadcast use vstd::multiset::group_multiset_axioms;

        assert(rest@.to_multiset().len() == 0);
        assert(rest@.to_multiset() =~= vstd::multiset::Multiset::<ConversationInfo>::empty());
        assert(out@.to_multiset() =~= orig.to_multiset());
    }
    let ghost full = out@;
    if out.len() > SESSION_LIST_LIMIT {
        out.truncate(SESSION_LIST_LIMIT);
        proof {
            broadcast use vstd::multiset::group_multiset_axioms;

            let pre = full.subrange(0, 20);
            let post = full.subrange(20, full.len() as int);
            assert(full =~= pre + post);
            vstd::seq_lib::lemma_multiset_commutative(pre, post);
            assert(out@ == pre);
            assert(out@.to_multiset().subset_of(orig.to_multiset()));
            assert(orig.to_multiset().sub(out@.to_multiset()) =~= post.to_multiset());
            assert forall|x: ConversationInfo|
                #[trigger] orig.to_multiset().sub(out@.to_multiset()).count(x) > 0 implies (
            out@.len() == 0 || x.updated_at <= out@[out@.len() - 1].updated_at) by {
                broadcast use vstd::seq_lib::group_to_multiset_ensures;

                assert(post.to_multiset().count(x) > 0);
                assert(post.contains(x));
                let k = choose|k: int| 0 <= k < post.len() && post[k] == x;
                assert(full[20 + k] == x);
                assert(full[20 + k].updated_at <= full[19].updated_at);
                assert(out@[out@.len() - 1] == full[19]);
            }
        }
    } else {
        proof {
            broadcast use vstd::multiset::group_multiset_axioms;

            assert(orig.to_multiset().sub(out@.to_multiset())
                =~= vstd::multiset::Multiset::<ConversationInfo>::empty());
        }
    }
    out
}


/// The relative-age label of an update instant against `now`: under a
/// minute reads `just now`, then whole minutes, hours and days ago.
pub open spec fn spec_time_ago(timestamp: int, now: int) -> Seq<char> {
    let diff = now - timestamp;
    if diff < 60 {
        "just now"@
    } else if diff < 3600 {
        crate::text::spec_dec((diff / 60) as nat) + "m ago"@
    } else if diff < 86400 {
        crate::text::spec_dec((diff / 3600) as nat) + "h ago"@
    } else {
        crate::text::spec_dec((diff / 86400) as nat) + "d ago"@
    }
}

/// Formats an epoch-seconds instant as a relative age against `now`.
pub fn format_time_ago(timestamp: i64, now: i64) -> (r: String)
    requires
        -0x2000_0000_0000_0000 < timestamp < 0x2000_0000_0000_0000,
        -0x2000_0000_0000_0000 < now < 0x2000_0000_0000_0000,
    ensures
        r@ == spec_time_ago(timestamp as int, now as int),
{
    let diff = now - timestamp;
    if diff < 60 {
        "just now".to_owned()
    } else if diff < 3600 {
        let mut s = crate::text::i64_to_dec(diff / 60);
        s.append("m ago");
        assert(s@ =~= spec_time_ago(timestamp as int, now as int));
        s
    } else if diff < 86400 {
        let mut s = crate::text::i64_to_dec(diff / 3600);
        s.append("h ago");
        assert(s@ =~= spec_time_ago(timestamp as int, now as int));
        s
    } else {
        let mut s = crate::text::i64_to_dec(diff / 86400);
        s.append("d ago");
        assert(s@ =~= spec_time_ago(timestamp as int, now as int));
        s
    }
}

} // verus!
