//! Routing of formatted records into one output per canonical conversation,
//! plus one for records that belong to no conversation.
//!
//! Outputs are opened lazily: the first record routed to a conversation opens
//! its output, and merged duplicate conversations share one output because they
//! route under one canonical identifier. Records of one conversation keep the
//! order in which they were routed.

use vstd::prelude::*;
use crate::texts;
use vstd::string::*;

verus! {


/// Where a record went.
#[derive(Clone, Copy, Debug, PartialEq, Eq, Structural)]
pub enum Route {
    /// To the output at this position; `opened` when the record opened it.
    Conversation { index: usize, opened: bool },
    /// To the output of records without a conversation.
    Orphaned,
}

/// Per-conversation batches of formatted records.
pub struct ConversationMultiplexer {
    keys: Vec<i32>,
    batches: Vec<Vec<String>>,
    orphaned: Vec<String>,
    model: Ghost<Map<i32, Seq<Seq<char>>>>,
}

impl ConversationMultiplexer {
    /// Records routed so far, by canonical conversation.
    pub closed spec fn spec_batches(&self) -> Map<i32, Seq<Seq<char>>> {
        self.model@
    }

    /// Canonical conversations with an open output, in the order they opened.
    pub closed spec fn spec_keys(&self) -> Seq<i32> {
        self.keys@
    }

    /// Records routed without a conversation.
    pub closed spec fn spec_orphaned(&self) -> Seq<Seq<char>> {
        texts(self.orphaned@)
    }

    /// Records routed so far to conversation `c`.
    pub open spec fn batch_of(&self, c: i32) -> Seq<Seq<char>> {
        if self.spec_batches().contains_key(c) {
            self.spec_batches()[c]
        } else {
            Seq::empty()
        }
    }

    pub closed spec fn wf(&self) -> bool {
        &&& self.keys@.no_duplicates()
        &&& self.batches@.len() == self.keys@.len()
        &&& self.model@.dom() == self.keys@.to_set()
        &&& forall|i: int|
            0 <= i < self.keys@.len() ==> self.model@[#[trigger] self.keys@[i]] == texts(
                self.batches@[i]@,
            )
    }

    /// No outputs open and no records.
    pub fn new() -> (r: Self)
        ensures
            r.wf(),
            r.spec_keys() == Seq::<i32>::empty(),
            r.spec_batches() == Map::<i32, Seq<Seq<char>>>::empty(),
            r.spec_orphaned() == Seq::<Seq<char>>::empty(),
    {
        let r = ConversationMultiplexer {
            keys: Vec::new(),
            batches: Vec::new(),
            orphaned: Vec::new(),
            model: Ghost(Map::empty()),
        };
        assert(r.keys@.to_set() =~= Set::empty());
        assert(r.spec_orphaned() =~= Seq::empty());
        r
    }

    /// Appends `record` to the output of `conversation`, opening it on the
    /// conversation's first record, or to the orphan output when there is no
    /// conversation.
    pub fn route(&mut self, conversation: Option<i32>, record: String) -> (r: Route)
        requires
            old(self).wf(),
        ensures
            final(self).wf(),
            match conversation {
                Some(c) => {
                    &&& final(self).spec_batches() == old(self).spec_batches().insert(
                        c,
                        old(self).batch_of(c).push(record@),
                    )
                    &&& final(self).spec_orphaned() == old(self).spec_orphaned()
                    &&& if old(self).spec_keys().contains(c) {
                        final(self).spec_keys() == old(self).spec_keys()
                    } else {
                        final(self).spec_keys() == old(self).spec_keys().push(c)
                    }
                    &&& r matches Route::Conversation { index, opened }
                    &&& index < final(self).spec_keys().len()
                    &&& final(self).spec_keys()[index as int] == c
                    &&& opened == !old(self).spec_keys().contains(c)
                },
                None => {
                    &&& final(self).spec_batches() == old(self).spec_batches()
                    &&& final(self).spec_keys() == old(self).spec_keys()
                    &&& final(self).spec_orphaned() == old(self).spec_orphaned().push(record@)
                    &&& r == Route::Orphaned
                },
            },
    {
        match conversation {
            None => {
                self.orphaned.push(record);
                assert(texts(self.orphaned@) =~= old(self).spec_orphaned().push(record@));
                Route::Orphaned
            },
            Some(c) => {
                let mut i: usize = 0;
                while i < self.keys.len()
                    invariant
                        i <= self.keys@.len(),
                        forall|k: int| 0 <= k < i ==> self.keys@[k] != c,
                    ensures
                        i <= self.keys@.len(),
                        forall|k: int| 0 <= k < i ==> self.keys@[k] != c,
                        i < self.keys@.len() ==> self.keys@[i as int] == c,
                    decreases self.keys.len() - i,
                {
                    if self.keys[i] == c {
                        break;
                    }
                    i = i + 1;
                }
                let opened = i == self.keys.len();
                let ghost old_batches = self.batches@;
                if opened {
                    assert(!self.keys@.contains(c));
                    self.keys.push(c);
                    self.batches.push(Vec::new());
                } else {
                    assert(self.keys@.contains(c));
                }
                let ghost before = self.batches@[i as int]@;
                self.batches[i].push(record);
                proof {
                    let m = self.model@.insert(c, texts(before).push(record@));
                    assert(texts(self.batches@[i as int]@) =~= texts(before).push(record@));
                    if !opened {
                        assert(old(self).batch_of(c) == texts(before));
                    } else {
                        assert(texts(before) =~= Seq::<Seq<char>>::empty());
                        assert(self.keys@ =~= old(self).keys@.push(c));
                        assert forall|a: int, b: int| 0 <= a < b < self.keys@.len() implies self.keys@[a] != self.keys@[b] by {
                            if b == old(self).keys@.len() {
                                assert(old(self).keys@.contains(self.keys@[a]));
                            }
                        }
                    }
                    assert forall|x: i32| self.keys@.contains(x) <==> (old(self).keys@.contains(x) || x == c) by {
                        if old(self).keys@.contains(x) {
                            let j = choose|j: int| 0 <= j < old(self).keys@.len() && old(self).keys@[j] == x;
                            assert(self.keys@[j] == x);
                        }
                        if x == c {
                            assert(self.keys@[i as int] == c);
                        }
                    }
                    self.model = Ghost(m);
                    assert(self.keys@.to_set() =~= m.dom());
                    assert forall|k: int| 0 <= k < self.keys@.len() implies m[#[trigger] self.keys@[k]] == texts(self.batches@[k]@) by {
                        if k != i {
                            assert(self.keys@[k] != c);
                            assert(self.batches@[k] == old_batches[k]);
                        }
                    }
                }
                Route::Conversation { index: i, opened }
            },
        }
    }

    /// Number of conversation outputs; the orphan output comes on top.
    pub fn conversation_files(&self) -> (r: usize)
        ensures
            r == self.spec_keys().len(),
    {
        self.keys.len()
    }
}

/// A list of routing requests as the proofs see it.
pub open spec fn requests(v: Seq<(Option<i32>, String)>) -> Seq<(Option<i32>, Seq<char>)> {
    v.map_values(|r: (Option<i32>, String)| (r.0, r.1@))
}

/// The records among `rs` that go to conversation `c` (`None`: to no
/// conversation), in their order in `rs`.
pub open spec fn routed(rs: Seq<(Option<i32>, Seq<char>)>, c: Option<i32>) -> Seq<Seq<char>> {
    rs.filter(|r: (Option<i32>, Seq<char>)| r.0 == c).map_values(|r: (Option<i32>, Seq<char>)| r.1)
}

/// Conversations that some request in `rs` names.
pub open spec fn named(rs: Seq<(Option<i32>, Seq<char>)>) -> Set<i32> {
    Set::new(|c: i32| exists|j: int| 0 <= j < rs.len() && rs[j].0 == Some(c))
}

proof fn lemma_routed_push(rs: Seq<(Option<i32>, Seq<char>)>, x: (Option<i32>, Seq<char>), c: Option<i32>)
    ensures
        routed(rs.push(x), c) == if x.0 == c { routed(rs, c).push(x.1) } else { routed(rs, c) },
{
    let p = |r: (Option<i32>, Seq<char>)| r.0 == c;
    let f = |r: (Option<i32>, Seq<char>)| r.1;
    reveal(Seq::filter);
    assert(rs.push(x).drop_last() =~= rs);
    assert(rs.push(x).last() == x);
    let fl = rs.filter(p);
    if x.0 == c {
        assert(rs.push(x).filter(p) == fl.push(x));
        assert(fl.push(x).map_values(f) =~= fl.map_values(f).push(x.1));
    } else {
        assert(rs.push(x).filter(p) == fl);
    }
}

impl ConversationMultiplexer {
    /// Routes every request in order. Each conversation's output then holds
    /// exactly the records routed to it, in their relative order; the orphan
    /// output holds those without a conversation; and one output is open per
    /// distinct conversation named.
    pub fn route_all(records: &Vec<(Option<i32>, String)>) -> (r: Self)
        ensures
            r.wf(),
            r.spec_keys().no_duplicates(),
            r.spec_keys().to_set() == named(requests(records@)),
            r.spec_keys().len() == named(requests(records@)).len(),
            forall|c: i32| #[trigger] r.batch_of(c) == routed(requests(records@), Some(c)),
            r.spec_orphaned() == routed(requests(records@), None),
    {
        let ghost rs = requests(records@);
        let mut m = ConversationMultiplexer::new();
        let mut i: usize = 0;
        proof {
            assert(rs.take(0) =~= Seq::empty());
            assert(m.spec_keys().to_set() =~= named(rs.take(0)));
            assert forall|c: i32| #[trigger] m.batch_of(c) == routed(rs.take(0), Some(c)) by {
                assert(routed(rs.take(0), Some(c)) =~= Seq::empty());
            }
            assert(m.spec_orphaned() =~= routed(rs.take(0), None));
        }
        while i < records.len()
            invariant
                rs == requests(records@),
                i <= records@.len(),
                m.wf(),
                m.spec_keys().to_set() == named(rs.take(i as int)),
                forall|c: i32| #[trigger] m.batch_of(c) == routed(rs.take(i as int), Some(c)),
                m.spec_orphaned() == routed(rs.take(i as int), None),
            decreases records.len() - i,
        {
            let ghost prev = m;
            let conversation = records[i].0;
            let record = records[i].1.clone();
            m.route(conversation, record);
            proof {
                let x = rs[i as int];
                assert(x == (conversation, record@));
                assert(rs.take(i + 1) =~= rs.take(i as int).push(x));
                lemma_routed_push(rs.take(i as int), x, None);
                assert forall|c: i32| #[trigger] m.batch_of(c) == routed(rs.take(i + 1), Some(c)) by {
                    lemma_routed_push(rs.take(i as int), x, Some(c));
                    assert(prev.batch_of(c) == routed(rs.take(i as int), Some(c)));
                    match conversation {
                        Some(d) => {
                            if d == c {
                                assert(m.spec_batches().contains_key(c));
                            } else {
                                assert(m.spec_batches().contains_key(c) == prev.spec_batches().contains_key(c));
                            }
                        },
                        None => {},
                    }
                }
                assert forall|c: i32| m.spec_keys().to_set().contains(c) <==> named(rs.take(i + 1)).contains(c) by {
                    let t = rs.take(i + 1);
                    if named(rs.take(i as int)).contains(c) {
                        let j = choose|j: int| 0 <= j < i && rs.take(i as int)[j].0 == Some(c);
                        assert(t[j] == rs.take(i as int)[j]);
                    }
                    if named(t).contains(c) {
                        let j = choose|j: int| 0 <= j < t.len() && t[j].0 == Some(c);
                        if j < i {
                            assert(rs.take(i as int)[j] == t[j]);
                            assert(named(rs.take(i as int)).contains(c));
                        }
                    }
                    if conversation == Some(c) {
                        assert(t[i as int].0 == Some(c));
                        assert(prev.spec_keys().contains(c) ==> prev.spec_keys().to_set().contains(c));
                        assert(m.spec_keys().contains(c));
                    }
                    if prev.spec_keys().to_set().contains(c) {
                        assert(prev.spec_keys().contains(c));
                        let j = choose|j: int| 0 <= j < prev.spec_keys().len() && prev.spec_keys()[j] == c;
                        assert(m.spec_keys()[j] == c);
                        assert(m.spec_keys().contains(c));
                    }
                    if m.spec_keys().contains(c) && !prev.spec_keys().contains(c) {
                        assert(conversation == Some(c));
                    }
                }
                assert(m.spec_keys().to_set() =~= named(rs.take(i + 1)));
            }
            i = i + 1;
        }
        proof {
            assert(rs.take(records@.len() as int) =~= rs);
            m.spec_keys().unique_seq_to_set();
        }
        m
    }

    /// Canonical conversation of output `i`.
    pub fn conversation(&self, i: usize) -> (r: i32)
        requires
            i < self.spec_keys().len(),
        ensures
            r == self.spec_keys()[i as int],
    {
        self.keys[i]
    }

    /// Records of output `i`, in routing order.
    pub fn records(&self, i: usize) -> (r: &Vec<String>)
        requires
            self.wf(),
            i < self.spec_keys().len(),
        ensures
            texts(r@) == self.batch_of(self.spec_keys()[i as int]),
    {
        &self.batches[i]
    }

    /// Records without a conversation, in routing order.
    pub fn orphaned(&self) -> (r: &Vec<String>)
        ensures
            texts(r@) == self.spec_orphaned(),
    {
        &self.orphaned
    }
}

/// `rs` separated by commas.
pub open spec fn comma_joined(rs: Seq<Seq<char>>) -> Seq<char>
    decreases rs.len(),
{
    if rs.len() == 0 {
        Seq::empty()
    } else if rs.len() == 1 {
        rs[0]
    } else {
        comma_joined(rs.drop_last()) + ","@ + rs.last()
    }
}

/// Frames encoded records as one array: `[` the records separated by commas `]`.
pub fn json_array(records: &Vec<String>) -> (r: String)
    ensures
        r@ == "["@ + comma_joined(texts(records@)) + "]"@,
{
    let ghost ts = texts(records@);
    let mut out = String::from_str("[");
    let mut i: usize = 0;
    while i < records.len()
        invariant
            ts == texts(records@),
            i <= records@.len(),
            out@ == "["@ + comma_joined(ts.take(i as int)),
        decreases records.len() - i,
    {
        proof {
            assert(ts.take(i + 1).drop_last() =~= ts.take(i as int));
            assert(ts.take(i + 1).last() == records@[i as int]@);
        }
        if i > 0 {
            out.append(",");
        }
        out.append(records[i].as_str());
        proof {
            if i == 0 {
                assert(ts.take(0) =~= Seq::empty());
                assert(out@ =~= "["@ + comma_joined(ts.take(1)));
            } else {
                assert(out@ =~= "["@ + comma_joined(ts.take(i + 1)));
            }
        }
        i = i + 1;
    }
    out.append("]");
    proof {
        assert(ts.take(records@.len() as int) =~= ts);
    }
    out
}

} // verus!
