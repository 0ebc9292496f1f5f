//! Plain values shared by every contract of the kit: account identifiers, the
//! invocation a contract call runs in, and byte-string helpers.

use vstd::prelude::*;

verus! {

/// An account or contract identifier. Every party the contracts deal with is
/// named by one; two identifiers denote the same party exactly when equal.
pub type Address = u64;

/// What one contract call sees of the ledger it runs in: the ledger close
/// time, the ledger sequence number, and the parties that authorized the call.
pub struct Invocation {
    pub timestamp: u64,
    pub sequence: u32,
    pub signers: Vec<Address>,
}

impl Invocation {
    /// `who` authorized this call.
    pub open spec fn authorized(&self, who: Address) -> bool {
        self.signers@.contains(who)
    }

    /// Tests whether `who` authorized this call.
    pub fn is_authorized(&self, who: Address) -> (r: bool)
        ensures
            r == self.authorized(who),
    {
        contains_address(&self.signers, who)
    }
}

/// Tests whether `list` holds `who`.
pub fn contains_address(list: &Vec<Address>, who: Address) -> (r: bool)
    ensures
        r == list@.contains(who),
{
    let mut i: usize = 0;
    while i < list.len()
        invariant
            0 <= i <= list.len(),
            forall|j: int| 0 <= j < i ==> list@[j] != who,
        decreases list.len() - i,
    {
        if list[i] == who {
            return true;
        }
        i = i + 1;
    }
    false
}

/// The list with every occurrence of `who` left out, other entries in order.
pub open spec fn without(list: Seq<Address>, who: Address) -> Seq<Address> {
    list.filter(differs_from(who))
}

/// The test "is not `who`".
pub open spec fn differs_from(who: Address) -> spec_fn(Address) -> bool {
    |x: Address| x != who
}

/// Copies `list` leaving out every occurrence of `who`.
pub fn remove_address(list: &Vec<Address>, who: Address) -> (r: Vec<Address>)
    ensures
        r@ == without(list@, who),
{
    let mut out: Vec<Address> = Vec::new();
    let mut i: usize = 0;
    while i < list.len()
        invariant
            0 <= i <= list.len(),
            out@ == without(list@.take(i as int), who),
        decreases list.len() - i,
    {
        proof {
            reveal_with_fuel(Seq::<_>::filter, 1);
            assert(list@.take(i as int + 1).drop_last() =~= list@.take(i as int));
        }
        if list[i] != who {
            out.push(list[i]);
        }
        i = i + 1;
    }
    proof {
        assert(list@.take(list@.len() as int) =~= list@);
    }
    out
}

/// No identifier occurs twice in `s`.
pub open spec fn no_duplicates(s: Seq<Address>) -> bool {
    forall|i: int, j: int| 0 <= i < s.len() && 0 <= j < s.len() && i != j ==> s[i] != s[j]
}

/// Leaving one identifier out of a list without duplicates keeps it free of
/// duplicates and shortens it by one exactly when the identifier was there.
pub proof fn lemma_without_unique(s: Seq<Address>, x: Address)
    requires
        no_duplicates(s),
    ensures
        no_duplicates(without(s, x)),
        s.contains(x) ==> without(s, x).len() == s.len() - 1,
        !s.contains(x) ==> without(s, x) == s,
    decreases s.len(),
{
    reveal_with_fuel(Seq::<_>::filter, 1);
    if s.len() == 0 {
        assert(without(s, x) =~= s);
    } else {
        let init = s.drop_last();
        let last = s.last();
        assert(no_duplicates(init));
        lemma_without_unique(init, x);
        assert(s =~= init.push(last));
        assert(without(s, x) == if last != x {
            without(init, x).push(last)
        } else {
            without(init, x)
        });
        if s.contains(x) {
            if last == x {
                assert(!init.contains(x));
            } else {
                let k = choose|k: int| 0 <= k < s.len() && s[k] == x;
                assert(init[k] == x);
            }
        }
        if last != x {
            assert(!init.contains(last));
            if without(init, x).contains(last) {
                init.lemma_filter_contains_rev(differs_from(x), last);
            }
            let w = without(init, x).push(last);
            assert forall|i: int, j: int| 0 <= i < w.len() && 0 <= j < w.len() && i != j implies w[i]
                != w[j] by {
                if i < w.len() - 1 && j < w.len() - 1 {
                } else if i == w.len() - 1 {
                    assert(without(init, x).contains(w[j]));
                } else {
                    assert(without(init, x).contains(w[i]));
                }
            }
        }
        if !s.contains(x) {
            assert(without(s, x) =~= s);
        }
    }
}

/// Tests whether two byte strings are equal.
pub fn bytes_eq(a: &Vec<u8>, b: &Vec<u8>) -> (r: bool)
    ensures
        r == (a@ == b@),
{
    if a.len() != b.len() {
        return false;
    }
    let mut i: usize = 0;
    while i < a.len()
        invariant
            a.len() == b.len(),
            0 <= i <= a.len(),
            forall|j: int| 0 <= j < i ==> a@[j] == b@[j],
        decreases a.len() - i,
    {
        if a[i] != b[i] {
            return false;
        }
        i = i + 1;
    }
    assert(a@ =~= b@);
    true
}

/// A copy of a list of identifiers.
pub fn copy_addresses(a: &Vec<Address>) -> (r: Vec<Address>)
    ensures
        r@ == a@,
{
    let mut out: Vec<Address> = Vec::new();
    let mut i: usize = 0;
    while i < a.len()
        invariant
            0 <= i <= a.len(),
            out@ == a@.take(i as int),
        decreases a.len() - i,
    {
        out.push(a[i]);
        proof {
            assert(a@.take(i as int + 1) =~= a@.take(i as int).push(a@[i as int]));
        }
        i = i + 1;
    }
    assert(a@.take(a@.len() as int) =~= a@);
    out
}

/// Appends the bytes of `b` to `out`.
pub fn append_bytes(out: &mut Vec<u8>, b: &Vec<u8>)
    ensures
        final(out)@ == old(out)@ + b@,
{
    let mut i: usize = 0;
    while i < b.len()
        invariant
            0 <= i <= b.len(),
            out@ == old(out)@ + b@.take(i as int),
        decreases b.len() - i,
    {
        out.push(b[i]);
        proof {
            assert(old(out)@ + b@.take(i as int + 1) =~= (old(out)@ + b@.take(i as int)).push(b@[i as int]));
        }
        i = i + 1;
    }
    assert(b@.take(b@.len() as int) =~= b@);
}

/// A copy of a byte string.
pub fn copy_bytes(a: &Vec<u8>) -> (r: Vec<u8>)
    ensures
        r@ == a@,
{
    let mut out: Vec<u8> = Vec::new();
    let mut i: usize = 0;
    while i < a.len()
        invariant
            0 <= i <= a.len(),
            out@ == a@.take(i as int),
        decreases a.len() - i,
    {
        out.push(a[i]);
        proof {
            assert(a@.take(i as int + 1) =~= a@.take(i as int).push(a@[i as int]));
        }
        i = i + 1;
    }
    assert(a@.take(a@.len() as int) =~= a@);
    out
}

/// The window of a listing that a paged query returns: `limit` entries at most,
/// and never more than `cap`, starting at offset `start`; empty when `start`
/// lies at or beyond the end.
pub open spec fn page<T>(s: Seq<T>, start: int, limit: int, cap: int) -> Seq<T> {
    let n = if limit > cap { cap } else { limit };
    if start >= s.len() {
        Seq::empty()
    } else {
        let end = if start + n < s.len() { start + n } else { s.len() as int };
        s.subrange(start, end)
    }
}

/// Copies the window `page(list, start, limit, cap)` out of `list`.
pub fn page_of<T: Copy>(list: &Vec<T>, start: u32, limit: u32, cap: u32) -> (r: Vec<T>)
    ensures
        r@ == page(list@, start as int, limit as int, cap as int),
{
    let n: u64 = if limit > cap { cap as u64 } else { limit as u64 };
    let mut out: Vec<T> = Vec::new();
    if start as usize >= list.len() {
        return out;
    }
    let s: usize = start as usize;
    let end: usize = if (start as u64) + n < list.len() as u64 {
        (start as u64 + n) as usize
    } else {
        list.len()
    };
    let mut i: usize = s;
    while i < end
        invariant
            s <= i <= end <= list.len(),
            out@ == list@.subrange(s as int, i as int),
        decreases end - i,
    {
        out.push(list[i]);
        proof {
            assert(list@.subrange(s as int, i as int + 1) =~= list@.subrange(
                s as int,
                i as int,
            ).push(list@[i as int]));
        }
        i = i + 1;
    }
    out
}

/// Integer division rounding toward zero, as machine division does.
pub open spec fn trunc_div(a: int, b: int) -> int {
    let q = abs(a) / abs(b);
    if (a >= 0) == (b > 0) || a == 0 {
        q
    } else {
        -q
    }
}

pub open spec fn abs(a: int) -> int {
    if a >= 0 {
        a
    } else {
        -a
    }
}

/// Divides rounding toward zero.
pub fn div_toward_zero(a: i128, b: i128) -> (r: i128)
    requires
        b != 0,
        !(a == i128::MIN && b == -1),
    ensures
        r == trunc_div(a as int, b as int),
{
    let ua: u128 = if a >= 0 {
        a as u128
    } else if a == i128::MIN {
        0x8000_0000_0000_0000_0000_0000_0000_0000u128
    } else {
        (-a) as u128
    };
    let ub: u128 = if b >= 0 {
        b as u128
    } else if b == i128::MIN {
        0x8000_0000_0000_0000_0000_0000_0000_0000u128
    } else {
        (-b) as u128
    };
    assert(ua as int == abs(a as int));
    assert(ub as int == abs(b as int));
    let q: u128 = ua / ub;
    assert(q <= ua) by (nonlinear_arith)
        requires
            q == ua / ub,
            ub >= 1,
    ;
    if (a >= 0) == (b > 0) || a == 0 {
        if q == 0x8000_0000_0000_0000_0000_0000_0000_0000u128 {
            // a quotient of 2^127 with equal signs would need i128::MIN / -1
            assert(ub == 1) by (nonlinear_arith)
                requires
                    q == ua / ub,
                    ub >= 1,
                    ua <= 0x8000_0000_0000_0000_0000_0000_0000_0000u128,
                    q == 0x8000_0000_0000_0000_0000_0000_0000_0000u128,
            ;
            assert(false);
            0
        } else {
            q as i128
        }
    } else if q == 0x8000_0000_0000_0000_0000_0000_0000_0000u128 {
        i128::MIN
    } else {
        -(q as i128)
    }
}

/// Adds the value stored under `a` to a running total.
pub open spec fn add_entry(m: Map<Address, i128>) -> spec_fn(int, Address) -> int {
    |acc: int, a: Address| acc + m[a]
}

/// The sum of all values stored in `m`.
pub open spec fn total_of(m: Map<Address, i128>) -> int {
    m.dom().fold(0int, add_entry(m))
}

proof fn lemma_add_entry_commutative(m: Map<Address, i128>)
    ensures
        vstd::set::fold::is_fun_commutative(add_entry(m)),
{
}

/// Folding two maps that agree on a set over that set gives the same total.
proof fn lemma_fold_agree(d: Set<Address>, m1: Map<Address, i128>, m2: Map<Address, i128>)
    requires
        d.finite(),
        forall|a: Address| d.contains(a) ==> m1[a] == m2[a],
    ensures
        d.fold(0int, add_entry(m1)) == d.fold(0int, add_entry(m2)),
    decreases d.len(),
{
    lemma_add_entry_commutative(m1);
    lemma_add_entry_commutative(m2);
    if d.len() == 0 {
        assert(d =~= Set::empty());
        vstd::set::fold::lemma_fold_empty(0int, add_entry(m1));
        vstd::set::fold::lemma_fold_empty(0int, add_entry(m2));
    } else {
        let a = d.choose();
        let rest = d.remove(a);
        lemma_fold_agree(rest, m1, m2);
        vstd::set::fold::lemma_fold_insert(rest, 0int, add_entry(m1), a);
        vstd::set::fold::lemma_fold_insert(rest, 0int, add_entry(m2), a);
        assert(rest.insert(a) =~= d);
    }
}

/// Nothing is stored in the empty map.
pub proof fn lemma_total_of_empty()
    ensures
        total_of(Map::<Address, i128>::empty()) == 0,
{
    assert(Map::<Address, i128>::empty().dom() =~= Set::empty());
    vstd::set::fold::lemma_fold_empty(0int, add_entry(Map::<Address, i128>::empty()));
}

/// Storing `x` under `k` changes the total by `x` less what was stored there.
pub proof fn lemma_total_of_insert(m: Map<Address, i128>, k: Address, x: i128)
    requires
        m.dom().finite(),
    ensures
        total_of(m.insert(k, x)) == total_of(m) - (if m.contains_key(k) {
            m[k] as int
        } else {
            0
        }) + x,
{
    let m2 = m.insert(k, x);
    let rest = m.dom().remove(k);
    lemma_add_entry_commutative(m);
    lemma_add_entry_commutative(m2);
    lemma_fold_agree(rest, m, m2);
    vstd::set::fold::lemma_fold_insert(rest, 0int, add_entry(m2), k);
    assert(rest.insert(k) =~= m2.dom());
    if m.contains_key(k) {
        vstd::set::fold::lemma_fold_insert(rest, 0int, add_entry(m), k);
        assert(rest.insert(k) =~= m.dom());
    } else {
        assert(rest =~= m.dom());
    }
}

} // verus!
