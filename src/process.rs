//! Snapshots of the host and the ranking of their processes by CPU usage.
use vstd::prelude::*;
use vstd::string::StringExecFns;

verus! {

/// One process as the snapshot provider reported it.
///
/// CPU usage is kept in hundredths of a percent; `None` stands for a reading
/// that is not a number, which ranks below every measured value.
pub struct ProcessRecord {
    pub pid: i32,
    pub cpu_hundredths: Option<u32>,
    pub memory_kb: u64,
    pub label: String,
}

/// Identity of the host; a field is `None` where the provider could not tell.
pub struct SystemIdentity {
    pub name: Option<String>,
    pub kernel_version: Option<String>,
    pub os_version: Option<String>,
    pub host_name: Option<String>,
}

/// A point-in-time capture of host memory, swap (in kilobytes) and processes.
pub struct SystemSnapshot {
    pub identity: SystemIdentity,
    pub total_memory: u64,
    pub used_memory: u64,
    pub total_swap: u64,
    pub used_swap: u64,
    pub processes: Vec<ProcessRecord>,
}

impl ProcessRecord {
    /// A record that may be shown: its label is not empty.
    pub open spec fn is_eligible(self) -> bool {
        self.label@.len() > 0
    }

    /// The value records are ranked by: the CPU usage, with a reading that is
    /// not a number below every measured one.
    pub open spec fn cpu_key(self) -> int {
        match self.cpu_hundredths {
            Some(c) => c as int,
            None => -1,
        }
    }

    /// Builds a record from its fields.
    pub fn new(pid: i32, cpu_hundredths: Option<u32>, memory_kb: u64, label: String) -> (r: Self)
        ensures
            r.pid == pid,
            r.cpu_hundredths == cpu_hundredths,
            r.memory_kb == memory_kb,
            r.label == label,
    {
        ProcessRecord { pid, cpu_hundredths, memory_kb, label }
    }

    /// An identical copy of the record.
    pub fn duplicate(&self) -> (r: Self)
        ensures
            r == *self,
    {
        ProcessRecord {
            pid: self.pid,
            cpu_hundredths: self.cpu_hundredths,
            memory_kb: self.memory_kb,
            label: self.label.clone(),
        }
    }

    /// The key [`ProcessRecord::cpu_key`] in executable form.
    pub fn rank_key(&self) -> (r: i64)
        ensures
            r as int == self.cpu_key(),
    {
        match self.cpu_hundredths {
            Some(c) => c as i64,
            None => -1,
        }
    }
}

/// Where a record with key `k` goes in `t`: before the first record whose key
/// is lower, or at the end.
pub open spec fn insert_pos(t: Seq<ProcessRecord>, k: int) -> nat
    decreases t.len(),
{
    if t.len() == 0 {
        0
    } else if t[0].cpu_key() < k {
        0
    } else {
        1 + insert_pos(t.drop_first(), k)
    }
}

/// `t` with `x` placed after every leading record whose key is at least its own.
pub open spec fn insert_desc(t: Seq<ProcessRecord>, x: ProcessRecord) -> Seq<ProcessRecord> {
    t.insert(insert_pos(t, x.cpu_key()) as int, x)
}

/// The eligible records of `s`, by CPU usage from highest to lowest; records
/// of equal usage keep their order in `s`.
pub open spec fn ranked_all(s: Seq<ProcessRecord>) -> Seq<ProcessRecord>
    decreases s.len(),
{
    if s.len() == 0 {
        Seq::empty()
    } else {
        let t = ranked_all(s.drop_last());
        if s.last().is_eligible() {
            insert_desc(t, s.last())
        } else {
            t
        }
    }
}

/// The first `limit` records of [`ranked_all`], or all of them when there are fewer.
pub open spec fn ranking(s: Seq<ProcessRecord>, limit: nat) -> Seq<ProcessRecord> {
    let a = ranked_all(s);
    if a.len() <= limit {
        a
    } else {
        a.take(limit as int)
    }
}

proof fn lemma_insert_pos_is(t: Seq<ProcessRecord>, k: int, p: nat)
    requires
        p <= t.len(),
        forall|j: int| 0 <= j < p ==> t[j].cpu_key() >= k,
        p == t.len() || t[p as int].cpu_key() < k,
    ensures
        insert_pos(t, k) == p,
    decreases p,
{
    if p > 0 {
        assert(t[0].cpu_key() >= k);
        let u = t.drop_first();
        assert forall|j: int| 0 <= j < p - 1 implies u[j].cpu_key() >= k by {
            assert(u[j] == t[j + 1]);
        }
        if p < t.len() {
            assert(u[p - 1] == t[p as int]);
        }
        lemma_insert_pos_is(u, k, (p - 1) as nat);
    }
}

proof fn lemma_ranked_all_len(s: Seq<ProcessRecord>)
    ensures
        ranked_all(s).len() <= s.len(),
    decreases s.len(),
{
    if s.len() > 0 {
        lemma_ranked_all_len(s.drop_last());
        lemma_insert_pos_bounded(ranked_all(s.drop_last()), s.last().cpu_key());
    }
}

proof fn lemma_insert_pos_bounded(t: Seq<ProcessRecord>, k: int)
    ensures
        insert_pos(t, k) <= t.len(),
    decreases t.len(),
{
    if t.len() > 0 {
        lemma_insert_pos_bounded(t.drop_first(), k);
    }
}

/// How many records of `s` have a non-empty label.
pub open spec fn eligible_count(s: Seq<ProcessRecord>) -> nat
    decreases s.len(),
{
    if s.len() == 0 {
        0
    } else {
        eligible_count(s.drop_last()) + if s.last().is_eligible() {
            1nat
        } else {
            0nat
        }
    }
}

/// The eligible records of `s` whose rank key is `k`, in the order of `s`.
pub open spec fn with_key(s: Seq<ProcessRecord>, k: int) -> Seq<ProcessRecord>
    decreases s.len(),
{
    if s.len() == 0 {
        Seq::empty()
    } else if s.last().is_eligible() && s.last().cpu_key() == k {
        with_key(s.drop_last(), k).push(s.last())
    } else {
        with_key(s.drop_last(), k)
    }
}

/// `a` may stand before `b` in a ranking: `b` has no numeric reading, or
/// both have one and `a`'s is at least `b`'s.
pub open spec fn may_precede(a: ProcessRecord, b: ProcessRecord) -> bool {
    match (a.cpu_hundredths, b.cpu_hundredths) {
        (_, None) => true,
        (Some(x), Some(y)) => x >= y,
        (None, Some(_)) => false,
    }
}

/// Records in order of non-increasing rank key.
pub open spec fn sorted_desc(t: Seq<ProcessRecord>) -> bool {
    forall|i: int, j: int| 0 <= i < j < t.len() ==> t[i].cpu_key() >= t[j].cpu_key()
}

/// Every record of `t` has a non-empty label.
pub open spec fn all_eligible(t: Seq<ProcessRecord>) -> bool {
    forall|i: int| 0 <= i < t.len() ==> t[i].is_eligible()
}

proof fn lemma_insert_pos_spec(t: Seq<ProcessRecord>, k: int)
    ensures
        insert_pos(t, k) <= t.len(),
        forall|j: int| 0 <= j < insert_pos(t, k) ==> t[j].cpu_key() >= k,
        insert_pos(t, k) < t.len() ==> t[insert_pos(t, k) as int].cpu_key() < k,
    decreases t.len(),
{
    if t.len() > 0 && t[0].cpu_key() >= k {
        let u = t.drop_first();
        lemma_insert_pos_spec(u, k);
        assert forall|j: int| 0 <= j < insert_pos(t, k) implies t[j].cpu_key() >= k by {
            if j > 0 {
                assert(t[j] == u[j - 1]);
            }
        }
    }
}

proof fn lemma_ranked_all_shape(s: Seq<ProcessRecord>)
    ensures
        sorted_desc(ranked_all(s)),
        all_eligible(ranked_all(s)),
        ranked_all(s).len() == eligible_count(s),
    decreases s.len(),
{
    if s.len() > 0 {
        let t = ranked_all(s.drop_last());
        let x = s.last();
        lemma_ranked_all_shape(s.drop_last());
        if x.is_eligible() {
            let k = x.cpu_key();
            let p = insert_pos(t, k) as int;
            lemma_insert_pos_spec(t, k);
            let r = insert_desc(t, x);
            assert(r == t.insert(p, x));
            assert forall|j: int| p <= j < t.len() implies t[j].cpu_key() < k by {
                if j > p {
                    assert(t[p].cpu_key() >= t[j].cpu_key());
                }
            }
            assert forall|i: int, j: int| 0 <= i < j < r.len() implies r[i].cpu_key()
                >= r[j].cpu_key() by {
                if j < p {
                } else if j == p {
                } else if i < p {
                    assert(t[i].cpu_key() >= k);
                } else if i == p {
                } else {
                    assert(r[i] == t[i - 1] && r[j] == t[j - 1]);
                }
            }
        }
    }
}

proof fn lemma_with_key_append(a: Seq<ProcessRecord>, b: Seq<ProcessRecord>, k: int)
    ensures
        with_key(a + b, k) == with_key(a, k) + with_key(b, k),
    decreases b.len(),
{
    if b.len() == 0 {
        assert(a + b =~= a);
        assert(with_key(a, k) + with_key(b, k) =~= with_key(a, k));
    } else {
        assert((a + b).drop_last() =~= a + b.drop_last());
        assert((a + b).last() == b.last());
        lemma_with_key_append(a, b.drop_last(), k);
        if b.last().is_eligible() && b.last().cpu_key() == k {
            assert(with_key(a, k) + with_key(b.drop_last(), k).push(b.last()) =~= (with_key(a, k)
                + with_key(b.drop_last(), k)).push(b.last()));
        }
    }
}

proof fn lemma_with_key_none(t: Seq<ProcessRecord>, k: int)
    requires
        forall|j: int| 0 <= j < t.len() ==> t[j].cpu_key() < k,
    ensures
        with_key(t, k) == Seq::<ProcessRecord>::empty(),
    decreases t.len(),
{
    if t.len() > 0 {
        lemma_with_key_none(t.drop_last(), k);
    }
}

proof fn lemma_ranked_all_with_key(s: Seq<ProcessRecord>, k: int)
    ensures
        with_key(ranked_all(s), k) == with_key(s, k),
    decreases s.len(),
{
    if s.len() > 0 {
        let t = ranked_all(s.drop_last());
        let x = s.last();
        lemma_ranked_all_with_key(s.drop_last(), k);
        if x.is_eligible() {
            lemma_ranked_all_shape(s.drop_last());
            let kx = x.cpu_key();
            let p = insert_pos(t, kx) as int;
            lemma_insert_pos_spec(t, kx);
            let front = t.take(p);
            let back = t.skip(p);
            assert(insert_desc(t, x) =~= front + seq![x] + back);
            assert(t =~= front + back);
            lemma_with_key_append(front + seq![x], back, k);
            lemma_with_key_append(front, seq![x], k);
            lemma_with_key_append(front, back, k);
            assert(seq![x].drop_last() =~= Seq::<ProcessRecord>::empty());
            assert(seq![x].last() == x);
            assert(with_key(Seq::<ProcessRecord>::empty(), k) == Seq::<ProcessRecord>::empty());
            assert(Seq::<ProcessRecord>::empty().push(x) =~= seq![x]);
            let wf = with_key(front, k);
            let wb = with_key(back, k);
            assert(with_key(s, k) == with_key(s.drop_last(), k) || with_key(s, k) == with_key(
                s.drop_last(),
                k,
            ).push(x));
            if kx == k {
                assert(with_key(seq![x], k) =~= seq![x]);
                assert forall|j: int| 0 <= j < back.len() implies back[j].cpu_key() < k by {
                    let m = p + j;
                    if m > p {
                        assert(t[p].cpu_key() >= t[m].cpu_key());
                    }
                }
                lemma_with_key_none(back, k);
                assert(wf + Seq::<ProcessRecord>::empty() =~= wf);
                assert(wf + seq![x] + wb =~= wf.push(x));
            } else {
                assert(with_key(seq![x], k) =~= Seq::<ProcessRecord>::empty());
                assert(wf + Seq::<ProcessRecord>::empty() =~= wf);
            }
        }
    }
}

/// A ranking never holds more records than the limit, nor more than the
/// snapshot holds records with a non-empty label.
pub proof fn lemma_rank_length(s: Seq<ProcessRecord>, limit: nat)
    ensures
        ranking(s, limit).len() <= limit,
        ranking(s, limit).len() <= eligible_count(s),
{
    lemma_ranked_all_shape(s);
}

/// In a ranking, a record precedes another only if its CPU usage is at least
/// the other's, or the other's reading is not a number.
pub proof fn lemma_rank_ordered(s: Seq<ProcessRecord>, limit: nat, i: int, j: int)
    requires
        0 <= i < j < ranking(s, limit).len(),
    ensures
        may_precede(ranking(s, limit)[i], ranking(s, limit)[j]),
{
    lemma_ranked_all_shape(s);
    let a = ranked_all(s);
    assert(a[i].cpu_key() >= a[j].cpu_key());
}

/// A record whose reading is not a number is followed in a ranking only by
/// records whose reading is not a number either.
pub proof fn lemma_rank_unmeasured_last(s: Seq<ProcessRecord>, limit: nat, i: int, j: int)
    requires
        0 <= i < j < ranking(s, limit).len(),
        ranking(s, limit)[i].cpu_hundredths is None,
    ensures
        ranking(s, limit)[j].cpu_hundredths is None,
{
    lemma_rank_ordered(s, limit, i, j);
}

/// The ranking is stable: for any CPU usage (or for readings that are not a
/// number), the ranked records with that usage are the first of the snapshot's
/// eligible records with that usage, in snapshot order.
pub proof fn lemma_rank_stable(s: Seq<ProcessRecord>, limit: nat, k: int)
    ensures
        with_key(ranking(s, limit), k).len() <= with_key(s, k).len(),
        with_key(ranking(s, limit), k) == with_key(s, k).take(
            with_key(ranking(s, limit), k).len() as int,
        ),
{
    let a = ranked_all(s);
    lemma_ranked_all_with_key(s, k);
    if a.len() > limit {
        let n = limit as int;
        assert(a =~= a.take(n) + a.skip(n));
        lemma_with_key_append(a.take(n), a.skip(n), k);
        let w = with_key(a.take(n), k);
        assert(with_key(s, k).take(w.len() as int) =~= w);
    } else {
        assert(with_key(s, k).take(with_key(s, k).len() as int) =~= with_key(s, k));
    }
}

/// A record with an empty label never appears in a ranking.
pub proof fn lemma_rank_labels_nonempty(s: Seq<ProcessRecord>, limit: nat, i: int)
    requires
        0 <= i < ranking(s, limit).len(),
    ensures
        ranking(s, limit)[i].label@.len() > 0,
{
    lemma_ranked_all_shape(s);
}

/// The words of a command line joined by single spaces.
pub open spec fn joined(words: Seq<Seq<char>>) -> Seq<char>
    decreases words.len(),
{
    if words.len() == 0 {
        Seq::empty()
    } else if words.len() == 1 {
        words[0]
    } else {
        joined(words.drop_last()) + seq![' '] + words.last()
    }
}

/// The label of a process: its command line joined by spaces, or its bare
/// name when the command line is empty.
pub open spec fn label_of(name: Seq<char>, cmd: Seq<String>) -> Seq<char> {
    if cmd.len() == 0 {
        name
    } else {
        joined(cmd.map_values(|w: String| w@))
    }
}

/// Builds the label of a process from its name and command line.
pub fn process_label(name: &str, cmd: &Vec<String>) -> (r: String)
    ensures
        r@ == label_of(name@, cmd@),
{
    if cmd.len() == 0 {
        return String::from_str(name);
    }
    let ghost words = cmd@.map_values(|w: String| w@);
    let mut out = String::from_str(cmd[0].as_str());
    assert(words.take(1) =~= seq![words[0]]);
    let mut i: usize = 1;
    while i < cmd.len()
        invariant
            1 <= i <= cmd@.len(),
            words == cmd@.map_values(|w: String| w@),
            out@ == joined(words.take(i as int)),
        decreases cmd@.len() - i,
    {
        out.append(" ");
        out.append(cmd[i].as_str());
        proof {
            reveal_strlit(" ");
            assert(words.take(i as int + 1).drop_last() =~= words.take(i as int));
        }
        i = i + 1;
    }
    assert(words.take(cmd@.len() as int) =~= words);
    out
}

/// Ranks the processes of a snapshot: records with an empty label are
/// dropped, the rest are ordered by CPU usage from highest to lowest (records
/// of equal usage keep their snapshot order, readings that are not a number
/// come last), and only the first `limit` are kept.
pub fn rank(snapshot: &SystemSnapshot, limit: u8) -> (r: Vec<ProcessRecord>)
    ensures
        r@ == ranking(snapshot.processes@, limit as nat),
{
    let procs = &snapshot.processes;
    let ghost s = procs@;
    let mut out: Vec<ProcessRecord> = Vec::new();
    let mut i: usize = 0;
    while i < procs.len()
        invariant
            s == procs@,
            i <= s.len(),
            out@ == ranked_all(s.take(i as int)),
        decreases s.len() - i,
    {
        assert(s.take(i as int + 1).drop_last() =~= s.take(i as int));
        let rec = &procs[i];
        if !rec.label.as_str().is_empty() {
            let k = rec.rank_key();
            let mut p: usize = 0;
            while p < out.len() && out[p].rank_key() >= k
                invariant
                    p <= out@.len(),
                    forall|j: int| 0 <= j < p ==> out@[j].cpu_key() >= k,
                decreases out@.len() - p,
            {
                p = p + 1;
            }
            proof {
                lemma_insert_pos_is(out@, k as int, p as nat);
            }
            out.insert(p, rec.duplicate());
        }
        i = i + 1;
    }
    assert(s.take(s.len() as int) =~= s);
    proof {
        lemma_ranked_all_len(s);
    }
    out.truncate(limit as usize);
    out
}

} // verus!
