//! Canonical identifiers for duplicated conversations and participants.
//!
//! Two entries of a table are duplicates when their grouping keys are equal: a
//! conversation's key is its participant set (order and repetition ignored), a
//! participant's key is its contact string. A conversation without participants
//! is a duplicate of none but itself. Every entry maps to the smallest raw
//! identifier of its group.

use vstd::prelude::*;

verus! {

/// Grouping key of a conversation: its participant set and, for a conversation
/// without participants, its own raw identifier, so that it stands alone.
pub open spec fn chat_key(r: (i32, Vec<i32>)) -> (Set<i32>, Option<i32>) {
    (r.1@.to_set(), if r.1@.len() == 0 { Some(r.0) } else { None })
}

/// A conversation table as the proofs see it: raw identifier and grouping key.
pub open spec fn chat_table(rows: Seq<(i32, Vec<i32>)>) -> Seq<(i32, (Set<i32>, Option<i32>))> {
    rows.map_values(|r: (i32, Vec<i32>)| (r.0, chat_key(r)))
}

/// A handle table as the proofs see it: raw identifier and contact string.
pub open spec fn handle_table(rows: Seq<(i32, String)>) -> Seq<(i32, Seq<char>)> {
    rows.map_values(|r: (i32, String)| (r.0, r.1@))
}

/// `c` is the canonical identifier of entry `i`: the smallest raw identifier
/// among the entries whose key equals the key of entry `i`.
pub open spec fn is_canonical<K>(t: Seq<(i32, K)>, i: int, c: i32) -> bool {
    &&& exists|j: int| 0 <= j < t.len() && t[j].1 == t[i].1 && t[j].0 == c
    &&& forall|j: int| 0 <= j < t.len() && t[j].1 == t[i].1 ==> c <= t[j].0
}

/// Some entry before position `i` has the same key as entry `i`.
pub open spec fn has_earlier<K>(t: Seq<(i32, K)>, i: int) -> bool {
    exists|j: int| 0 <= j < i && t[j].1 == t[i].1
}

/// Number of entries among the first `n` whose key already occurred before
/// them: the raw count minus the number of groups.
pub open spec fn duplicates<K>(t: Seq<(i32, K)>, n: nat) -> nat
    decreases n,
{
    if n == 0 {
        0
    } else {
        duplicates(t, (n - 1) as nat) + if has_earlier(t, n - 1) { 1nat } else { 0nat }
    }
}

/// The mapping `m` lists each entry of `t` in order, with its canonical identifier.
pub open spec fn canonical_map<K>(t: Seq<(i32, K)>, m: Seq<(i32, i32)>) -> bool {
    &&& m.len() == t.len()
    &&& forall|i: int| 0 <= i < t.len() ==> m[i].0 == t[i].0 && is_canonical(t, i, (#[trigger] m[i]).1)
}

/// What a lookup of `raw` in `m` yields: the canonical identifier of the first
/// entry with that raw identifier, if there is one.
pub open spec fn lookup_result(m: Seq<(i32, i32)>, raw: i32, r: Option<i32>) -> bool {
    match r {
        Some(c) => exists|i: int|
            0 <= i < m.len() && m[i] == (raw, c) && forall|k: int| 0 <= k < i ==> m[k].0 != raw,
        None => forall|i: int| 0 <= i < m.len() ==> m[i].0 != raw,
    }
}

/// Immutable raw-to-canonical lookup tables for conversations and participants.
pub struct IdentityCache {
    chats: Vec<(i32, i32)>,
    handles: Vec<(i32, i32)>,
    duplicate_chats: usize,
    duplicate_handles: usize,
}

impl IdentityCache {
    pub closed spec fn chat_map(&self) -> Seq<(i32, i32)> {
        self.chats@
    }

    pub closed spec fn handle_map(&self) -> Seq<(i32, i32)> {
        self.handles@
    }

    pub closed spec fn dup_chats(&self) -> nat {
        self.duplicate_chats as nat
    }

    pub closed spec fn dup_handles(&self) -> nat {
        self.duplicate_handles as nat
    }

    /// Builds both tables in one grouping pass each.
    pub fn new(conversations: &Vec<(i32, Vec<i32>)>, handles: &Vec<(i32, String)>) -> (r: Self)
        ensures
            canonical_map(chat_table(conversations@), r.chat_map()),
            canonical_map(handle_table(handles@), r.handle_map()),
            r.dup_chats() == duplicates(chat_table(conversations@), conversations@.len()),
            r.dup_handles() == duplicates(handle_table(handles@), handles@.len()),
    {
        let (chats, duplicate_chats) = dedupe_chats(conversations);
        let (handle_ids, duplicate_handles) = dedupe_handles(handles);
        IdentityCache { chats, handles: handle_ids, duplicate_chats, duplicate_handles }
    }

    /// Canonical conversation identifier of a raw conversation identifier.
    pub fn chat_canonical(&self, raw: i32) -> (r: Option<i32>)
        ensures
            lookup_result(self.chat_map(), raw, r),
    {
        lookup(&self.chats, raw)
    }

    /// Canonical participant identifier of a raw handle identifier.
    pub fn handle_canonical(&self, raw: i32) -> (r: Option<i32>)
        ensures
            lookup_result(self.handle_map(), raw, r),
    {
        lookup(&self.handles, raw)
    }

    /// Raw conversations minus canonical conversations.
    pub fn duplicate_conversation_count(&self) -> (r: usize)
        ensures
            r == self.dup_chats(),
    {
        self.duplicate_chats
    }

    /// Raw handles minus canonical handles.
    pub fn duplicate_handle_count(&self) -> (r: usize)
        ensures
            r == self.dup_handles(),
    {
        self.duplicate_handles
    }
}

fn lookup(m: &Vec<(i32, i32)>, raw: i32) -> (r: Option<i32>)
    ensures
        lookup_result(m@, raw, r),
{
    let mut i: usize = 0;
    while i < m.len()
        invariant
            i <= m@.len(),
            forall|k: int| 0 <= k < i ==> m@[k].0 != raw,
        decreases m.len() - i,
    {
        if m[i].0 == raw {
            return Some(m[i].1);
        }
        i = i + 1;
    }
    None
}

/// Whether two participant lists hold the same members.
pub fn same_members(a: &Vec<i32>, b: &Vec<i32>) -> (r: bool)
    ensures
        r == (a@.to_set() == b@.to_set()),
{
    let ab = all_within(a, b);
    let ba = all_within(b, a);
    if ab && ba {
        assert(a@.to_set() =~= b@.to_set());
    } else if !ab {
        proof {
            let x = choose|x: i32| a@.contains(x) && !b@.contains(x);
            assert(a@.to_set().contains(x) && !b@.to_set().contains(x));
        }
    } else {
        proof {
            let x = choose|x: i32| b@.contains(x) && !a@.contains(x);
            assert(b@.to_set().contains(x) && !a@.to_set().contains(x));
        }
    }
    ab && ba
}

fn all_within(a: &Vec<i32>, b: &Vec<i32>) -> (r: bool)
    ensures
        r == forall|x: i32| a@.contains(x) ==> b@.contains(x),
{
    let mut i: usize = 0;
    while i < a.len()
        invariant
            i <= a@.len(),
            forall|k: int| 0 <= k < i ==> b@.contains(#[trigger] a@[k]),
        decreases a.len() - i,
    {
        if !contains(b, a[i]) {
            assert(a@.contains(a@[i as int]));
            return false;
        }
        i = i + 1;
    }
    true
}

fn contains(v: &Vec<i32>, x: i32) -> (r: bool)
    ensures
        r == v@.contains(x),
{
    let mut i: usize = 0;
    while i < v.len()
        invariant
            i <= v@.len(),
            forall|k: int| 0 <= k < i ==> v@[k] != x,
        decreases v.len() - i,
    {
        if v[i] == x {
            assert(v@[i as int] == x);
            return true;
        }
        i = i + 1;
    }
    false
}

/// Canonical identifiers of `rows`, whose keys `t` describes; `same(j, i)` tells
/// whether rows `j` and `i` have equal keys.
fn dedupe_by<R, K, F: Fn(usize, usize) -> bool>(rows: &Vec<(i32, R)>, same: F, Ghost(t): Ghost<Seq<(i32, K)>>) -> (r: (
    Vec<(i32, i32)>,
    usize,
))
    requires
        t.len() == rows@.len(),
        forall|i: int| 0 <= i < t.len() ==> #[trigger] t[i].0 == rows@[i].0,
        forall|j: usize, i: usize| j < rows@.len() && i < rows@.len() ==> #[trigger] same.requires((j, i)),
        forall|j: usize, i: usize, b: bool|
            j < rows@.len() && i < rows@.len() && #[trigger] same.ensures((j, i), b) ==> b == (t[j as int].1
                == t[i as int].1),
    ensures
        canonical_map(t, r.0@),
        r.1 == duplicates(t, t.len()),
{
    let mut out: Vec<(i32, i32)> = Vec::new();
    let mut dups: usize = 0;
    let mut i: usize = 0;
    while i < rows.len()
        invariant
            t.len() == rows@.len(),
            forall|i: int| 0 <= i < t.len() ==> #[trigger] t[i].0 == rows@[i].0,
            forall|j: usize, i: usize| j < rows@.len() && i < rows@.len() ==> #[trigger] same.requires((j, i)),
            forall|j: usize, i: usize, b: bool|
                j < rows@.len() && i < rows@.len() && #[trigger] same.ensures((j, i), b) ==> b == (t[j as int].1
                    == t[i as int].1),
            i <= rows@.len(),
            out@.len() == i,
            forall|k: int| 0 <= k < i ==> out@[k].0 == t[k].0 && is_canonical(t, k, (#[trigger] out@[k]).1),
            dups == duplicates(t, i as nat),
            dups <= i,
        decreases rows.len() - i,
    {
        let mut c: i32 = rows[i].0;
        let ghost mut w: int = i as int;
        let mut earlier = false;
        let mut j: usize = 0;
        while j < rows.len()
            invariant
                t.len() == rows@.len(),
                forall|i: int| 0 <= i < t.len() ==> #[trigger] t[i].0 == rows@[i].0,
                forall|j: usize, i: usize| j < rows@.len() && i < rows@.len() ==> #[trigger] same.requires((j, i)),
                forall|j: usize, i: usize, b: bool|
                    j < rows@.len() && i < rows@.len() && #[trigger] same.ensures((j, i), b) ==> b == (t[j as int].1
                        == t[i as int].1),
                i < rows@.len(),
                j <= rows@.len(),
                0 <= w < rows@.len(),
                t[w].1 == t[i as int].1,
                t[w].0 == c,
                forall|k: int| 0 <= k < j && t[k].1 == t[i as int].1 ==> c <= t[k].0,
                earlier == exists|k: int| 0 <= k < j && k < i && t[k].1 == t[i as int].1,
                out@.len() == i,
                forall|k: int| 0 <= k < i ==> out@[k].0 == t[k].0 && is_canonical(t, k, (#[trigger] out@[k]).1),
                dups == duplicates(t, i as nat),
                dups <= i,
            decreases rows.len() - j,
        {
            let eq = same(j, i);
            assert(t[j as int].0 == rows@[j as int].0);
            if eq && rows[j].0 < c {
                c = rows[j].0;
                proof {
                    w = j as int;
                }
            }
            if eq && j < i {
                earlier = true;
            }
            j = j + 1;
        }
        proof {
            assert(is_canonical(t, i as int, c));
            assert(earlier == has_earlier(t, i as int));
        }
        let ghost prev = out@;
        out.push((rows[i].0, c));
        proof {
            assert forall|k: int| 0 <= k < i + 1 implies out@[k].0 == t[k].0 && is_canonical(t, k, (#[trigger] out@[k]).1) by {
                if k < i {
                    assert(out@[k] == prev[k]);
                    assert(is_canonical(t, k, prev[k].1));
                } else {
                    assert(out@[k] == (rows@[k].0, c));
                    assert(t[k].0 == rows@[k].0);
                }
            }
        }
        if earlier {
            dups = dups + 1;
        }
        i = i + 1;
    }
    (out, dups)
}

fn dedupe_chats(rows: &Vec<(i32, Vec<i32>)>) -> (r: (Vec<(i32, i32)>, usize))
    ensures
        canonical_map(chat_table(rows@), r.0@),
        r.1 == duplicates(chat_table(rows@), rows@.len()),
{
    let ghost t = chat_table(rows@);
    let same = |j: usize, i: usize| -> (b: bool)
        requires
            j < rows@.len(),
            i < rows@.len(),
        ensures
            b == (chat_table(rows@)[j as int].1 == chat_table(rows@)[i as int].1),
        {
            let a = &rows[j].1;
            let b = &rows[i].1;
            let members = same_members(a, b);
            let r = members && (b.len() > 0 || rows[j].0 == rows[i].0);
            proof {
                let t = chat_table(rows@);
                assert(t[j as int].1 == chat_key(rows@[j as int]));
                assert(t[i as int].1 == chat_key(rows@[i as int]));
                if members {
                    if b@.len() > 0 {
                        assert(b@.to_set().contains(b@[0]));
                        assert(a@.to_set().contains(b@[0]));
                        assert(a@.len() > 0);
                    }
                    if a@.len() > 0 {
                        assert(a@.to_set().contains(a@[0]));
                        assert(b@.to_set().contains(a@[0]));
                    }
                }
            }
            r
        };
    proof {
        assert forall|i: int| 0 <= i < t.len() implies #[trigger] t[i].0 == rows@[i].0 by {
            assert(t[i] == (rows@[i].0, chat_key(rows@[i])));
        }
    }
    dedupe_by::<Vec<i32>, (Set<i32>, Option<i32>), _>(rows, same, Ghost(t))
}

fn dedupe_handles(rows: &Vec<(i32, String)>) -> (r: (Vec<(i32, i32)>, usize))
    ensures
        canonical_map(handle_table(rows@), r.0@),
        r.1 == duplicates(handle_table(rows@), rows@.len()),
{
    let ghost t = handle_table(rows@);
    let same = |j: usize, i: usize| -> (b: bool)
        requires
            j < rows@.len(),
            i < rows@.len(),
        ensures
            b == (handle_table(rows@)[j as int].1 == handle_table(rows@)[i as int].1),
        {
            proof {
                let t = handle_table(rows@);
                assert(t[j as int].1 == rows@[j as int].1@);
                assert(t[i as int].1 == rows@[i as int].1@);
            }
            rows[j].1 == rows[i].1
        };
    proof {
        assert forall|i: int| 0 <= i < t.len() implies #[trigger] t[i].0 == rows@[i].0 by {
            assert(t[i] == (rows@[i].0, rows@[i].1@));
        }
    }
    dedupe_by::<String, Seq<char>, _>(rows, same, Ghost(t))
}

/// A conversation without participants is its own canonical conversation.
pub proof fn lemma_lone_conversation(rows: Seq<(i32, Vec<i32>)>, i: int, c: i32)
    requires
        0 <= i < rows.len(),
        rows[i].1@.len() == 0,
        is_canonical(chat_table(rows), i, c),
    ensures
        c == rows[i].0,
{
    let t = chat_table(rows);
    assert(t[i] == (rows[i].0, chat_key(rows[i])));
    let w = choose|w: int| 0 <= w < t.len() && t[w].1 == t[i].1 && t[w].0 == c;
    assert(t[w] == (rows[w].0, chat_key(rows[w])));
    assert(c <= t[i].0);
    if rows[w].1@.len() > 0 {
        assert(rows[w].1@.to_set().contains(rows[w].1@[0]));
        assert(rows[i].1@.to_set().contains(rows[w].1@[0]));
    }
}

/// Entries with equal keys get the same canonical identifier.
pub proof fn lemma_equal_keys_share_canonical<K>(t: Seq<(i32, K)>, i: int, j: int, ci: i32, cj: i32)
    requires
        0 <= i < t.len(),
        0 <= j < t.len(),
        t[i].1 == t[j].1,
        is_canonical(t, i, ci),
        is_canonical(t, j, cj),
    ensures
        ci == cj,
{
    let wi = choose|w: int| 0 <= w < t.len() && t[w].1 == t[i].1 && t[w].0 == ci;
    let wj = choose|w: int| 0 <= w < t.len() && t[w].1 == t[j].1 && t[w].0 == cj;
    assert(cj <= t[wi].0);
    assert(ci <= t[wj].0);
}

/// Appending an entry whose key some entry already has raises the duplicate
/// count by exactly one; appending one with a new key leaves it unchanged.
pub proof fn lemma_duplicates_push<K>(t: Seq<(i32, K)>, e: (i32, K))
    ensures
        (exists|j: int| 0 <= j < t.len() && t[j].1 == e.1) ==> duplicates(t.push(e), t.len() + 1)
            == duplicates(t, t.len()) + 1,
        !(exists|j: int| 0 <= j < t.len() && t[j].1 == e.1) ==> duplicates(t.push(e), t.len() + 1)
            == duplicates(t, t.len()),
{
    lemma_duplicates_prefix(t, e, t.len());
    let u = t.push(e);
    assert(u[t.len() as int] == e);
    assert((exists|j: int| 0 <= j < t.len() && t[j].1 == e.1) == has_earlier(u, t.len() as int)) by {
        if exists|j: int| 0 <= j < t.len() && t[j].1 == e.1 {
            let j = choose|j: int| 0 <= j < t.len() && t[j].1 == e.1;
            assert(u[j] == t[j]);
        }
        if has_earlier(u, t.len() as int) {
            let j = choose|j: int| 0 <= j < t.len() && (#[trigger] u[j]).1 == u[t.len() as int].1;
            assert(u[j] == t[j]);
        }
    }
}

proof fn lemma_duplicates_prefix<K>(t: Seq<(i32, K)>, e: (i32, K), n: nat)
    requires
        n <= t.len(),
    ensures
        duplicates(t.push(e), n) == duplicates(t, n),
    decreases n,
{
    if n > 0 {
        lemma_duplicates_prefix(t, e, (n - 1) as nat);
        let u = t.push(e);
        assert forall|j: int| 0 <= j < n implies u[j] == t[j] by {}
        assert(has_earlier(u, n - 1) == has_earlier(t, n - 1));
    }
}

} // verus!
