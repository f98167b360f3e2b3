use vstd::prelude::*;

use crate::error::ScstError;

verus! {

pub type Entries = Seq<(Seq<char>, Seq<char>)>;

/// The views of a sequence of strings.
pub open spec fn strs(v: Seq<String>) -> Seq<Seq<char>> {
    v.map_values(|s: String| s@)
}

pub open spec fn opt_view(o: Option<String>) -> Option<Seq<char>> {
    match o {
        Some(s) => Some(s@),
        None => None,
    }
}

pub open spec fn keys_unique(e: Entries) -> bool {
    forall|i: int, j: int| 0 <= i < e.len() && 0 <= j < e.len() && i != j ==> e[i].0 != e[j].0
}

pub open spec fn has_key(e: Entries, k: Seq<char>) -> bool {
    exists|i: int| 0 <= i < e.len() && e[i].0 == k
}

/// Whether `i` is the first position of key `k`.
pub open spec fn is_first_key(e: Entries, k: Seq<char>, i: int) -> bool {
    0 <= i < e.len() && e[i].0 == k && forall|j: int| 0 <= j < i ==> e[j].0 != k
}

/// The entries after setting `k` to `v`: an existing entry of that key takes the
/// new value in place, otherwise the pair is appended.
pub open spec fn insert_spec(e: Entries, k: Seq<char>, v: Seq<char>) -> Entries {
    if has_key(e, k) {
        let i = choose|i: int| is_first_key(e, k, i);
        e.update(i, (k, v))
    } else {
        e.push((k, v))
    }
}

pub open spec fn pair_text(p: (Seq<char>, Seq<char>)) -> Seq<char> {
    p.0 + seq!['='] + p.1
}

/// The `key=value` texts of the entries, joined by `;`.
pub open spec fn join_pairs(e: Entries) -> Seq<char>
    decreases e.len(),
{
    if e.len() <= 1 {
        if e.len() == 0 { Seq::empty() } else { pair_text(e[0]) }
    } else {
        join_pairs(e.drop_last()) + seq![';'] + pair_text(e.last())
    }
}

/// What packing the entries gives: nothing for no entries.
pub open spec fn pack_spec(e: Entries) -> Option<Seq<char>> {
    if e.len() == 0 {
        None
    } else {
        Some(join_pairs(e))
    }
}

/// The keys of the entries that `allowed` does not hold, in the entries' order.
pub open spec fn outside_keys(e: Entries, allowed: Seq<Seq<char>>) -> Seq<Seq<char>>
    decreases e.len(),
{
    if e.len() == 0 {
        Seq::empty()
    } else {
        outside_keys(e.drop_last(), allowed) + if allowed.contains(e.last().0) {
            Seq::<Seq<char>>::empty()
        } else {
            seq![e.last().0]
        }
    }
}

/// The keys of `keys` that the entries hold, in the order of `keys`.
pub open spec fn present_keys(e: Entries, keys: Seq<Seq<char>>) -> Seq<Seq<char>>
    decreases keys.len(),
{
    if keys.len() == 0 {
        Seq::empty()
    } else {
        present_keys(e, keys.drop_last()) + if has_key(e, keys.last()) {
            seq![keys.last()]
        } else {
            Seq::<Seq<char>>::empty()
        }
    }
}

/// A command with its options: the packed options follow after one space.
pub open spec fn with_options(cmd: Seq<char>, packed: Option<Seq<char>>) -> Seq<char> {
    match packed {
        Some(p) => cmd + seq![' '] + p,
        None => cmd,
    }
}

/// What checking the options against the keys `allowed` and packing them gives.
pub open spec fn check_pack_ok(e: Entries, allowed: Seq<Seq<char>>) -> bool {
    outside_keys(e, allowed).len() == 0
}

/// The key-value options of a command. Each key appears once.
#[derive(Debug, PartialEq, Eq)]
pub struct Options {
    inner: Vec<(String, String)>,
}

impl View for Options {
    type V = Entries;

    closed spec fn view(&self) -> Entries {
        self.inner@.map_values(|p: (String, String)| (p.0@, p.1@))
    }
}

/// Whether `v` holds a string equal to `s`.
pub fn contains_str(v: &Vec<String>, s: &str) -> (r: bool)
    ensures
        r == strs(v@).contains(s@),
{
    let key = String::from_str(s);
    let mut i: usize = 0;
    while i < v.len()
        invariant
            i <= v@.len(),
            key@ == s@,
            forall|j: int| 0 <= j < i ==> v@[j]@ != s@,
        decreases v.len() - i,
    {
        if v[i] == key {
            assert(strs(v@)[i as int] == s@);
            return true;
        }
        i = i + 1;
    }
    proof {
        if strs(v@).contains(s@) {
            let j = choose|j: int| 0 <= j < strs(v@).len() && strs(v@)[j] == s@;
            assert(v@[j]@ == s@);
        }
    }
    false
}

impl Options {
    fn position(&self, k: &String) -> (r: Option<usize>)
        ensures
            r is Some ==> is_first_key(self@, k@, r->0 as int),
            r is None ==> !has_key(self@, k@),
    {
        let mut i: usize = 0;
        while i < self.inner.len()
            invariant
                i <= self@.len(),
                self@.len() == self.inner@.len(),
                forall|j: int| 0 <= j < i ==> self@[j].0 != k@,
            decreases self.inner.len() - i,
        {
            if self.inner[i].0 == *k {
                return Some(i);
            }
            i = i + 1;
        }
        None
    }

    /// An empty set of options.
    pub fn new() -> (r: Options)
        ensures
            r@ == Seq::<(Seq<char>, Seq<char>)>::empty(),
            keys_unique(r@),
    {
        let r = Options { inner: Vec::new() };
        assert(r@ =~= Seq::<(Seq<char>, Seq<char>)>::empty());
        r
    }

    /// Sets option `k` to `v`.
    pub fn insert(&mut self, k: &str, v: &str)
        ensures
            final(self)@ == insert_spec(old(self)@, k@, v@),
            keys_unique(old(self)@) ==> keys_unique(final(self)@),
    {
        let key = String::from_str(k);
        let val = String::from_str(v);
        let ghost e = self@;
        match self.position(&key) {
            Some(i) => {
                self.inner.set(i, (key, val));
                proof {
                    let c = choose|c: int| is_first_key(e, k@, c);
                    assert(is_first_key(e, k@, c));
                    assert(c == i);
                    assert(self@ =~= e.update(i as int, (k@, v@)));
                }
            },
            None => {
                self.inner.push((key, val));
                assert(self@ =~= e.push((k@, v@)));
            },
        }
    }

    /// The keys of `keys` that are set, in the order of `keys`.
    pub fn contains_keys(&self, keys: &Vec<String>) -> (r: Vec<String>)
        ensures
            strs(r@) == present_keys(self@, strs(keys@)),
    {
        let mut r: Vec<String> = Vec::new();
        let mut i: usize = 0;
        while i < keys.len()
            invariant
                i <= keys@.len(),
                strs(r@) == present_keys(self@, strs(keys@).take(i as int)),
            decreases keys.len() - i,
        {
            let k = keys[i].clone();
            let found = self.position(&k);
            proof {
                assert(strs(keys@).take(i + 1).drop_last() =~= strs(keys@).take(i as int));
                if let Some(j) = found {
                    assert(has_key(self@, k@));
                }
            }
            if found.is_some() {
                r.push(k);
            }
            assert(strs(r@) =~= present_keys(self@, strs(keys@).take(i + 1)));
            i = i + 1;
        }
        assert(strs(keys@).take(keys@.len() as int) =~= strs(keys@));
        r
    }

    /// The keys that are set but missing from `keys`, in the order of the entries.
    pub fn different_set(&self, keys: &Vec<String>) -> (r: Vec<String>)
        ensures
            strs(r@) == outside_keys(self@, strs(keys@)),
    {
        let mut r: Vec<String> = Vec::new();
        let mut i: usize = 0;
        while i < self.inner.len()
            invariant
                i <= self.inner@.len(),
                self@.len() == self.inner@.len(),
                strs(r@) == outside_keys(self@.take(i as int), strs(keys@)),
            decreases self.inner.len() - i,
        {
            assert(self@.take(i + 1).drop_last() =~= self@.take(i as int));
            assert(self@.take(i + 1).last() == self@[i as int]);
            if !contains_str(keys, self.inner[i].0.as_str()) {
                r.push(self.inner[i].0.clone());
            }
            assert(strs(r@) =~= outside_keys(self@.take(i + 1), strs(keys@)));
            i = i + 1;
        }
        assert(self@.take(self.inner@.len() as int) =~= self@);
        r
    }

    /// The options as `key=value` pairs joined by `;`, or nothing when none is set.
    pub fn pack(&self) -> (r: Option<String>)
        ensures
            opt_view(r) == pack_spec(self@),
    {
        let n = self.inner.len();
        if n == 0 {
            return None;
        }
        proof {
            reveal_strlit("=");
            reveal_strlit(";");
        }
        let mut acc = self.inner[0].0.clone();
        acc.append("=");
        acc.append(self.inner[0].1.as_str());
        assert(join_pairs(self@.take(1)) == pair_text(self@[0]));
        let mut i: usize = 1;
        while i < n
            invariant
                1 <= i <= n,
                n == self.inner@.len(),
                self@.len() == n,
                acc@ == join_pairs(self@.take(i as int)),
            decreases n - i,
        {
            assert(self@.take(i + 1).drop_last() =~= self@.take(i as int));
            assert(self@.take(i + 1).last() == self@[i as int]);
            assert(self@[i as int] == (self.inner@[i as int].0@, self.inner@[i as int].1@));
            let ghost before = acc@;
            proof {
                reveal_strlit("=");
                reveal_strlit(";");
            }
            acc.append(";");
            acc.append(self.inner[i].0.as_str());
            acc.append("=");
            acc.append(self.inner[i].1.as_str());
            assert(acc@ =~= before + seq![';'] + pair_text(self@[i as int]));
            assert(acc@ =~= join_pairs(self@.take(i + 1)));
            i = i + 1;
        }
        assert(self@.take(n as int) =~= self@);
        Some(acc)
    }

    /// Packs the options after checking that every key is one of `keys`; the
    /// keys that are not make the error.
    pub fn check_pack(&self, keys: &Vec<String>) -> (r: Result<Option<String>, ScstError>)
        ensures
            check_pack_ok(self@, strs(keys@)) ==> r is Ok && opt_view(r->Ok_0) == pack_spec(self@),
            !check_pack_ok(self@, strs(keys@)) ==> r is Err && r->Err_0 is InvalidParams
                && strs(r->Err_0->InvalidParams_0@) == outside_keys(self@, strs(keys@)),
    {
        let bad = self.different_set(keys);
        if bad.len() > 0 {
            return Err(ScstError::InvalidParams(bad));
        }
        Ok(self.pack())
    }
}

/// The command `cmd` followed by its checked options, if any is set.
pub fn cmd_with_options(cmd: String, params: &Vec<String>, options: &Options) -> (r: Result<
    String,
    ScstError,
>)
    ensures
        check_pack_ok(options@, strs(params@)) ==> r is Ok && r->Ok_0@ == with_options(
            cmd@,
            pack_spec(options@),
        ),
        !check_pack_ok(options@, strs(params@)) ==> r is Err && r->Err_0 is InvalidParams
            && strs(r->Err_0->InvalidParams_0@) == outside_keys(options@, strs(params@)),
{
    match options.check_pack(params) {
        Ok(Some(packed)) => {
            let mut c = cmd;
            c.append(" ");
            proof {
                reveal_strlit(" ");
            }
            c.append(packed.as_str());
            Ok(c)
        },
        Ok(None) => Ok(cmd),
        Err(e) => Err(e),
    }
}

/// Packing one pair gives `key=value`; packing two pairs of different keys
/// gives both, in the order they were set, joined by `;`; setting a key again
/// keeps one pair, with the new value.
pub proof fn law_pack_pairs(k1: Seq<char>, v1: Seq<char>, k2: Seq<char>, v2: Seq<char>)
    ensures
        pack_spec(insert_spec(Seq::empty(), k1, v1)) == Some(k1 + seq!['='] + v1),
        k1 != k2 ==> pack_spec(insert_spec(insert_spec(Seq::empty(), k1, v1), k2, v2)) == Some(
            k1 + seq!['='] + v1 + seq![';'] + k2 + seq!['='] + v2,
        ),
        k1 == k2 ==> pack_spec(insert_spec(insert_spec(Seq::empty(), k1, v1), k2, v2)) == Some(
            k2 + seq!['='] + v2,
        ),
{
    let e0 = Seq::<(Seq<char>, Seq<char>)>::empty();
    assert(!has_key(e0, k1));
    let e1 = insert_spec(e0, k1, v1);
    assert(e1 == seq![(k1, v1)]);
    if k1 != k2 {
        assert(!has_key(e1, k2));
        let e2 = insert_spec(e1, k2, v2);
        assert(e2 == seq![(k1, v1), (k2, v2)]);
        assert(e2.drop_last() =~= e1);
        assert(pair_text((k1, v1)) + seq![';'] + pair_text((k2, v2)) =~= k1 + seq!['='] + v1
            + seq![';'] + k2 + seq!['='] + v2);
    } else {
        assert(e1[0].0 == k2);
        assert(is_first_key(e1, k2, 0));
        assert(has_key(e1, k2));
        let e2 = insert_spec(e1, k2, v2);
        assert(e2 =~= seq![(k2, v2)]);
    }
}

/// No options pack to nothing, never to an empty text.
pub proof fn law_pack_empty(e: Entries)
    ensures
        pack_spec(e) is None <==> e.len() == 0,
        pack_spec(e) is Some ==> pack_spec(e)->0.len() > 0,
    decreases e.len(),
{
    if e.len() > 1 {
        law_pack_empty(e.drop_last());
    }
}

/// A check against keys that hold every set key succeeds with the plain
/// packing; a check against keys that miss one fails and names it.
pub proof fn law_check_pack(e: Entries, allowed: Seq<Seq<char>>, k: Seq<char>)
    ensures
        (forall|i: int| 0 <= i < e.len() ==> allowed.contains(#[trigger] e[i].0))
            ==> check_pack_ok(e, allowed),
        has_key(e, k) && !allowed.contains(k) ==> !check_pack_ok(e, allowed)
            && outside_keys(e, allowed).contains(k),
    decreases e.len(),
{
    if e.len() > 0 {
        let d = e.drop_last();
        law_check_pack(d, allowed, k);
        if forall|i: int| 0 <= i < e.len() ==> allowed.contains(#[trigger] e[i].0) {
            assert forall|i: int| 0 <= i < d.len() implies allowed.contains(#[trigger] d[i].0) by {
                assert(d[i] == e[i]);
            }
            assert(allowed.contains(e[e.len() - 1].0));
        }
        if has_key(e, k) && !allowed.contains(k) {
            let i = choose|i: int| 0 <= i < e.len() && e[i].0 == k;
            if i < d.len() {
                assert(d[i] == e[i]);
                assert(has_key(d, k));
                let o = outside_keys(d, allowed);
                let j = choose|j: int| 0 <= j < o.len() && o[j] == k;
                assert(outside_keys(e, allowed)[j] == k);
            } else {
                assert(outside_keys(e, allowed).last() == k);
            }
        }
    }
}

} // verus!
