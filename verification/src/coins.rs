use vstd::prelude::*;
use vstd::string::StringExecFns;
use crate::errors::Error;
use crate::keys::str_lt;
use crate::keys::KeyCmp;
use crate::keys::lemma_str_lt_irrefl;
use crate::keys::lemma_str_lt_trans;
use crate::keys::str_compare;

verus! {

/// One (denomination, amount) pair, the unit the aggregator works on.
#[derive(Debug, Clone, PartialEq, Eq)]
pub struct Coin {
    pub denom: String,
    pub amount: u128,
}

/// Strictly ascending denomination order: the canonical shape of an
/// aggregate, which also rules out duplicate denominations.
pub open spec fn coins_wf(s: Seq<Coin>) -> bool {
    forall|i: int, j: int| 0 <= i < j < s.len() ==> str_lt(s[i].denom@, s[j].denom@)
}

/// The mapping a list of entries denotes: a later entry overwrites an
/// earlier one with the same denomination.
pub open spec fn coins_map(s: Seq<Coin>) -> Map<Seq<char>, u128>
    decreases s.len(),
{
    if s.len() == 0 {
        Map::empty()
    } else {
        coins_map(s.drop_last()).insert(s.last().denom@, s.last().amount)
    }
}

/// A denomination occurs in the mapping exactly when some entry carries it.
pub proof fn lemma_coins_map_contains(s: Seq<Coin>, d: Seq<char>)
    ensures
        coins_map(s).contains_key(d) <==> exists|i: int|
            0 <= i < s.len() && (#[trigger] s[i]).denom@ == d,
    decreases s.len(),
{
    if s.len() > 0 {
        lemma_coins_map_contains(s.drop_last(), d);
        if s.last().denom@ == d {
            assert(s[s.len() - 1].denom@ == d);
        } else if coins_map(s).contains_key(d) {
            let i = choose|i: int| 0 <= i < s.drop_last().len() && (#[trigger] s.drop_last()[i]).denom@ == d;
            assert(s[i].denom@ == d);
        } else if exists|i: int| 0 <= i < s.len() && (#[trigger] s[i]).denom@ == d {
            let i = choose|i: int| 0 <= i < s.len() && (#[trigger] s[i]).denom@ == d;
            assert(i < s.len() - 1);
            assert(s.drop_last()[i].denom@ == d);
        }
    }
}

/// In a canonical aggregate every entry's amount is the mapped amount.
pub proof fn lemma_coins_map_entry(s: Seq<Coin>, i: int)
    requires
        coins_wf(s),
        0 <= i < s.len(),
    ensures
        coins_map(s).contains_key(s[i].denom@),
        coins_map(s)[s[i].denom@] == s[i].amount,
    decreases s.len(),
{
    if i == s.len() - 1 {
    } else {
        assert(coins_wf(s.drop_last())) by {
            assert forall|a: int, b: int|
                0 <= a < b < s.drop_last().len() implies str_lt(
                s.drop_last()[a].denom@,
                s.drop_last()[b].denom@,
            ) by {
                assert(s.drop_last()[a] == s[a]);
                assert(s.drop_last()[b] == s[b]);
            }
        }
        lemma_coins_map_entry(s.drop_last(), i);
        assert(str_lt(s[i].denom@, s.last().denom@));
        if s[i].denom@ == s.last().denom@ {
            lemma_str_lt_irrefl(s[i].denom@);
        }
    }
}

/// Updating the entry that already carries a denomination is an insert on
/// the mapping.
proof fn lemma_coins_map_update(s: Seq<Coin>, i: int, c: Coin)
    requires
        coins_wf(s),
        0 <= i < s.len(),
        c.denom@ == s[i].denom@,
    ensures
        coins_map(s.update(i, c)) =~= coins_map(s).insert(c.denom@, c.amount),
    decreases s.len(),
{
    if i == s.len() - 1 {
        assert(s.update(i, c).drop_last() =~= s.drop_last());
        assert(s.update(i, c).last() == c);
    } else {
        assert(coins_wf(s.drop_last())) by {
            assert forall|a: int, b: int|
                0 <= a < b < s.drop_last().len() implies str_lt(
                s.drop_last()[a].denom@,
                s.drop_last()[b].denom@,
            ) by {
                assert(s.drop_last()[a] == s[a]);
                assert(s.drop_last()[b] == s[b]);
            }
        }
        lemma_coins_map_update(s.drop_last(), i, c);
        assert(s.update(i, c).drop_last() =~= s.drop_last().update(i, c));
        assert(s.update(i, c).last() == s.last());
        assert(str_lt(s[i].denom@, s.last().denom@));
        if c.denom@ == s.last().denom@ {
            lemma_str_lt_irrefl(c.denom@);
        }
    }
}

/// Inserting an entry under a fresh denomination is an insert on the
/// mapping, wherever the entry lands in the list.
proof fn lemma_coins_map_insert_at(s: Seq<Coin>, i: int, c: Coin)
    requires
        0 <= i <= s.len(),
        forall|j: int| 0 <= j < s.len() ==> (#[trigger] s[j]).denom@ != c.denom@,
    ensures
        coins_map(s.insert(i, c)) =~= coins_map(s).insert(c.denom@, c.amount),
    decreases s.len(),
{
    if i == s.len() {
        assert(s.insert(i, c).drop_last() =~= s);
        assert(s.insert(i, c).last() == c);
    } else {
        lemma_coins_map_insert_at(s.drop_last(), i, c);
        assert(s.insert(i, c).drop_last() =~= s.drop_last().insert(i, c));
        assert(s.insert(i, c).last() == s.last());
        assert(s[s.len() - 1].denom@ != c.denom@);
    }
}

/// A transient aggregate of coin amounts, deduplicated by denomination and
/// kept in ascending byte-lexicographic denomination order.  `add` is the
/// only overflow-checked way in; the bulk load below is reserved for
/// trusted input.
#[derive(Debug, PartialEq, Eq)]
pub struct Coins {
    entries: Vec<Coin>,
}

impl View for Coins {
    type V = Seq<Coin>;

    closed spec fn view(&self) -> Seq<Coin> {
        self.entries@
    }
}

impl Coins {
    /// Canonical shape: strictly ascending denominations.
    pub open spec fn wf(self) -> bool {
        coins_wf(self@)
    }

    /// The aggregated amounts, denomination to amount.
    pub open spec fn amounts(self) -> Map<Seq<char>, u128> {
        coins_map(self@)
    }

    /// An aggregate with no entries.
    pub fn empty() -> (r: Coins)
        ensures
            r.wf(),
            r.amounts() =~= Map::empty(),
    {
        Coins { entries: Vec::new() }
    }

    /// True exactly when no denomination is present.
    pub fn is_empty(&self) -> (r: bool)
        ensures
            r <==> self.amounts() == Map::<Seq<char>, u128>::empty(),
    {
        let r = self.entries.len() == 0;
        proof {
            if r {
                assert(self.amounts() =~= Map::<Seq<char>, u128>::empty());
            } else {
                lemma_coins_map_contains(self.entries@, self.entries@.last().denom@);
                assert(self.entries@[self.entries@.len() - 1].denom@
                    == self.entries@.last().denom@);
                assert(self.amounts().contains_key(self.entries@.last().denom@));
            }
        }
        r
    }

    /// Where a denomination sits, or where it would have to be inserted to
    /// keep the ascending order.
    fn locate(&self, d: &String) -> (r: (usize, bool))
        requires
            self.wf(),
        ensures
            r.0 <= self.entries@.len(),
            r.1 ==> r.0 < self.entries@.len() && self.entries@[r.0 as int].denom@ == d@,
            !r.1 ==> forall|j: int|
                0 <= j < self.entries@.len() ==> (#[trigger] self.entries@[j]).denom@ != d@,
            !r.1 ==> forall|j: int|
                0 <= j < r.0 as int ==> str_lt((#[trigger] self.entries@[j]).denom@, d@),
            !r.1 ==> forall|j: int|
                r.0 as int <= j < self.entries@.len() ==> str_lt(
                    d@,
                    (#[trigger] self.entries@[j]).denom@,
                ),
    {
        let mut i: usize = 0;
        while i < self.entries.len()
            invariant
                self.wf(),
                i <= self.entries@.len(),
                forall|j: int| 0 <= j < i as int ==> str_lt((#[trigger] self.entries@[j]).denom@, d@),
            decreases self.entries@.len() - i,
        {
            match str_compare(self.entries[i].denom.as_str(), d.as_str()) {
                KeyCmp::Less => {
                    i = i + 1;
                },
                KeyCmp::Equal => {
                    return (i, true);
                },
                KeyCmp::Greater => {
                    proof {
                        assert forall|j: int|
                            i as int <= j < self.entries@.len() implies str_lt(
                            d@,
                            (#[trigger] self.entries@[j]).denom@,
                        ) by {
                            if j > i as int {
                                lemma_str_lt_trans(
                                    d@,
                                    self.entries@[i as int].denom@,
                                    self.entries@[j].denom@,
                                );
                            }
                        }
                        assert forall|j: int|
                            0 <= j < self.entries@.len() implies (#[trigger] self.entries@[j]).denom@
                            != d@ by {
                            if self.entries@[j].denom@ == d@ {
                                if j < i as int {
                                    lemma_str_lt_irrefl(d@);
                                } else {
                                    lemma_str_lt_irrefl(d@);
                                }
                            }
                        }
                    }
                    return (i, false);
                },
            }
        }
        proof {
            assert forall|j: int|
                0 <= j < self.entries@.len() implies (#[trigger] self.entries@[j]).denom@ != d@ by {
                if self.entries@[j].denom@ == d@ {
                    lemma_str_lt_irrefl(d@);
                }
            }
        }
        (i, false)
    }

    /// Stores `amount` under `denom`, replacing any previous amount.
    fn put(&mut self, denom: &String, amount: u128)
        requires
            old(self).wf(),
        ensures
            final(self).wf(),
            final(self).amounts() == old(self).amounts().insert(denom@, amount),
    {
        let (idx, found) = self.locate(denom);
        if found {
            let removed = self.entries.remove(idx);
            let updated = Coin { denom: removed.denom, amount };
            self.entries.insert(idx, updated);
            proof {
                assert(self.entries@ =~= old(self).entries@.update(idx as int, updated));
                lemma_coins_map_update(old(self).entries@, idx as int, updated);
                assert(coins_wf(self.entries@)) by {
                    assert forall|a: int, b: int|
                        0 <= a < b < self.entries@.len() implies str_lt(
                        self.entries@[a].denom@,
                        self.entries@[b].denom@,
                    ) by {
                        assert(old(self).entries@[a].denom@ == self.entries@[a].denom@);
                        assert(old(self).entries@[b].denom@ == self.entries@[b].denom@);
                    }
                }
            }
        } else {
            let fresh = Coin { denom: denom.clone(), amount };
            self.entries.insert(idx, fresh);
            proof {
                lemma_coins_map_insert_at(old(self).entries@, idx as int, fresh);
                assert(coins_wf(self.entries@)) by {
                    assert forall|a: int, b: int|
                        0 <= a < b < self.entries@.len() implies str_lt(
                        self.entries@[a].denom@,
                        self.entries@[b].denom@,
                    ) by {
                        let s = old(self).entries@;
                        let i = idx as int;
                        if b < i {
                            assert(self.entries@[a] == s[a] && self.entries@[b] == s[b]);
                        } else if a < i && b == i {
                            assert(self.entries@[a] == s[a]);
                        } else if a == i {
                            assert(self.entries@[b] == s[b - 1]);
                        } else if a < i {
                            assert(self.entries@[a] == s[a] && self.entries@[b] == s[b - 1]);
                        } else {
                            assert(self.entries@[a] == s[a - 1] && self.entries@[b] == s[b - 1]);
                        }
                    }
                }
            }
        }
    }

    /// Adds a coin to the aggregate: the existing amount for its
    /// denomination (absence counting as zero) plus the coin's amount is
    /// stored back, or the whole call fails with `Overflow` and changes
    /// nothing.
    pub fn add(&mut self, new_coin: Coin) -> (r: Result<(), Error>)
        requires
            old(self).wf(),
        ensures
            final(self).wf(),
            ({
                let prev: int = if old(self).amounts().contains_key(new_coin.denom@) {
                    old(self).amounts()[new_coin.denom@] as int
                } else {
                    0
                };
                &&& (r is Ok <==> prev + new_coin.amount <= u128::MAX)
                &&& r is Ok ==> final(self).amounts() == old(self).amounts().insert(
                    new_coin.denom@,
                    (prev + new_coin.amount) as u128,
                )
                &&& r matches Err(e) ==> *final(self) == *old(self) && e == Error::Overflow
            }),
    {
        let (idx, found) = self.locate(&new_coin.denom);
        let prev: u128 = if found {
            proof {
                lemma_coins_map_entry(self.entries@, idx as int);
            }
            self.entries[idx].amount
        } else {
            proof {
                lemma_coins_map_contains(self.entries@, new_coin.denom@);
            }
            0
        };
        if new_coin.amount > u128::MAX - prev {
            return Err(Error::Overflow);
        }
        self.put(&new_coin.denom, prev + new_coin.amount);
        Ok(())
    }

    /// Trusted-input bulk load: overwrites by denomination, without
    /// summation and without rejecting zero amounts or duplicates (a later
    /// entry wins).  Only for lists already known to be deduplicated and
    /// well formed, such as authenticated funds accompanying a call;
    /// anything untrusted must go through `add` instead.
    pub fn from_trusted_unchecked(list: Vec<Coin>) -> (r: Coins)
        ensures
            r.wf(),
            r.amounts() == coins_map(list@),
    {
        let mut c = Coins { entries: Vec::new() };
        proof {
            assert(c.amounts() =~= coins_map(list@.take(0)));
        }
        let mut i: usize = 0;
        while i < list.len()
            invariant
                i <= list@.len(),
                c.wf(),
                c.amounts() == coins_map(list@.take(i as int)),
            decreases list@.len() - i,
        {
            let e = &list[i];
            c.put(&e.denom, e.amount);
            proof {
                assert(list@.take(i + 1).drop_last() =~= list@.take(i as int));
                assert(list@.take(i + 1).last() == list@[i as int]);
            }
            i = i + 1;
        }
        proof {
            assert(list@.take(list@.len() as int) =~= list@);
        }
        c
    }

    /// Consumes the aggregate into a coin list in strictly ascending
    /// byte-lexicographic denomination order, carrying exactly the
    /// aggregated amounts.
    pub fn to_vec(self) -> (r: Vec<Coin>)
        requires
            self.wf(),
        ensures
            r@ == self@,
            forall|i: int, j: int| 0 <= i < j < r@.len() ==> str_lt(r@[i].denom@, r@[j].denom@),
            forall|i: int, j: int|
                0 <= i < r@.len() && 0 <= j < r@.len() && i != j ==> r@[i].denom@ != r@[j].denom@,
            forall|i: int|
                0 <= i < r@.len() ==> self.amounts().contains_key((#[trigger] r@[i]).denom@)
                    && self.amounts()[r@[i].denom@] == r@[i].amount,
            forall|d: Seq<char>|
                self.amounts().contains_key(d) ==> exists|i: int|
                    0 <= i < r@.len() && (#[trigger] r@[i]).denom@ == d,
    {
        proof {
            assert forall|i: int, j: int|
                0 <= i < self.entries@.len() && 0 <= j < self.entries@.len() && i != j implies self.entries@[i].denom@
                != self.entries@[j].denom@ by {
                if self.entries@[i].denom@ == self.entries@[j].denom@ {
                    lemma_str_lt_irrefl(self.entries@[i].denom@);
                }
            }
            assert forall|i: int|
                0 <= i < self.entries@.len() implies self.amounts().contains_key(
                (#[trigger] self.entries@[i]).denom@,
            ) && self.amounts()[self.entries@[i].denom@] == self.entries@[i].amount by {
                lemma_coins_map_entry(self.entries@, i);
            }
            assert forall|d: Seq<char>|
                self.amounts().contains_key(d) implies exists|i: int|
                0 <= i < self.entries@.len() && (#[trigger] self.entries@[i]).denom@ == d by {
                lemma_coins_map_contains(self.entries@, d);
            }
        }
        self.entries
    }

    /// The textual rendering of the aggregate: `[]` when empty, otherwise
    /// the comma-joined `amount``denom` entries in ascending denomination
    /// order, with nothing between an amount and its denomination.
    pub fn render(&self) -> (r: String)
        ensures
            r@ == render_coins(self@),
    {
        if self.entries.len() == 0 {
            let r = String::from_str("[]");
            return r;
        }
        let mut out = String::new();
        let mut i: usize = 0;
        while i < self.entries.len()
            invariant
                i <= self.entries@.len(),
                self.entries@.len() > 0,
                out@ == render_entries(self.entries@.take(i as int)),
            decreases self.entries@.len() - i,
        {
            if i > 0 {
                out.append(",");
            }
            let e = &self.entries[i];
            push_dec(&mut out, e.amount);
            out.append(e.denom.as_str());
            proof {
                reveal_strlit(",");
                let t1 = self.entries@.take(i as int + 1);
                assert(t1.drop_last() =~= self.entries@.take(i as int));
                assert(t1.last() == self.entries@[i as int]);
                assert(out@ =~= render_entries(t1));
            }
            i = i + 1;
        }
        proof {
            assert(self.entries@.take(self.entries@.len() as int) =~= self.entries@);
        }
        out
    }
}

/// The character of one decimal digit.
pub open spec fn digit_char(d: int) -> char {
    if d == 0 {
        '0'
    } else if d == 1 {
        '1'
    } else if d == 2 {
        '2'
    } else if d == 3 {
        '3'
    } else if d == 4 {
        '4'
    } else if d == 5 {
        '5'
    } else if d == 6 {
        '6'
    } else if d == 7 {
        '7'
    } else if d == 8 {
        '8'
    } else {
        '9'
    }
}

/// The decimal digits of an amount, most significant first.
pub open spec fn dec_digits(n: u128) -> Seq<char>
    decreases n,
{
    if n < 10 {
        seq![digit_char(n as int)]
    } else {
        dec_digits(n / 10).push(digit_char((n % 10) as int))
    }
}

/// One entry rendered as its amount immediately followed by its
/// denomination.
pub open spec fn render_entry(c: Coin) -> Seq<char> {
    dec_digits(c.amount) + c.denom@
}

/// The comma-joined rendering of a list of entries.
pub open spec fn render_entries(s: Seq<Coin>) -> Seq<char>
    decreases s.len(),
{
    if s.len() == 0 {
        Seq::empty()
    } else if s.len() == 1 {
        render_entry(s[0])
    } else {
        render_entries(s.drop_last()) + seq![','] + render_entry(s.last())
    }
}

/// The textual rendering of an aggregate's entries.
pub open spec fn render_coins(s: Seq<Coin>) -> Seq<char> {
    if s.len() == 0 {
        "[]"@
    } else {
        render_entries(s)
    }
}

/// One decimal digit as text.
fn digit_str(d: u128) -> (r: &'static str)
    requires
        d < 10,
    ensures
        r@ == seq![digit_char(d as int)],
{
    if d == 0 {
        proof {
            reveal_strlit("0");
            assert("0"@ =~= seq![digit_char(0)]);
        }
        "0"
    } else if d == 1 {
        proof {
            reveal_strlit("1");
            assert("1"@ =~= seq![digit_char(1)]);
        }
        "1"
    } else if d == 2 {
        proof {
            reveal_strlit("2");
            assert("2"@ =~= seq![digit_char(2)]);
        }
        "2"
    } else if d == 3 {
        proof {
            reveal_strlit("3");
            assert("3"@ =~= seq![digit_char(3)]);
        }
        "3"
    } else if d == 4 {
        proof {
            reveal_strlit("4");
            assert("4"@ =~= seq![digit_char(4)]);
        }
        "4"
    } else if d == 5 {
        proof {
            reveal_strlit("5");
            assert("5"@ =~= seq![digit_char(5)]);
        }
        "5"
    } else if d == 6 {
        proof {
            reveal_strlit("6");
            assert("6"@ =~= seq![digit_char(6)]);
        }
        "6"
    } else if d == 7 {
        proof {
            reveal_strlit("7");
            assert("7"@ =~= seq![digit_char(7)]);
        }
        "7"
    } else if d == 8 {
        proof {
            reveal_strlit("8");
            assert("8"@ =~= seq![digit_char(8)]);
        }
        "8"
    } else {
        proof {
            reveal_strlit("9");
            assert("9"@ =~= seq![digit_char(9)]);
        }
        "9"
    }
}

/// Appends the decimal rendering of an amount.
fn push_dec(out: &mut String, n: u128)
    ensures
        final(out)@ == old(out)@ + dec_digits(n),
    decreases n,
{
    if n >= 10 {
        push_dec(out, n / 10);
    }
    let ds = digit_str(n % 10);
    out.append(ds);
    proof {
        assert(out@ =~= old(out)@ + dec_digits(n));
    }
}

/// The running total an input list carries for one denomination.
pub open spec fn sum_for(s: Seq<Coin>, d: Seq<char>) -> int
    decreases s.len(),
{
    if s.len() == 0 {
        0
    } else {
        sum_for(s.drop_last(), d) + if s.last().denom@ == d {
            s.last().amount as int
        } else {
            0
        }
    }
}

/// The amounts an empty aggregate reaches after adding every entry of a
/// list in order, with unbounded arithmetic.
pub open spec fn aggregated(s: Seq<Coin>) -> Map<Seq<char>, int>
    decreases s.len(),
{
    if s.len() == 0 {
        Map::empty()
    } else {
        let m = aggregated(s.drop_last());
        let prev: int = if m.contains_key(s.last().denom@) {
            m[s.last().denom@]
        } else {
            0
        };
        m.insert(s.last().denom@, prev + s.last().amount)
    }
}

/// Aggregation law: adding a whole input list to an empty aggregate leaves,
/// for each denomination that occurs in the input, exactly the arithmetic
/// sum of all input amounts under that denomination, and nothing else.
pub proof fn lemma_aggregated_sums(s: Seq<Coin>)
    ensures
        forall|d: Seq<char>|
            #[trigger] aggregated(s).contains_key(d) <==> exists|i: int|
                0 <= i < s.len() && (#[trigger] s[i]).denom@ == d,
        forall|d: Seq<char>|
            #[trigger] aggregated(s).contains_key(d) ==> aggregated(s)[d] == sum_for(s, d),
    decreases s.len(),
{
    if s.len() > 0 {
        lemma_aggregated_sums(s.drop_last());
        assert forall|d: Seq<char>| #[trigger]
            aggregated(s).contains_key(d) implies exists|i: int|
            0 <= i < s.len() && (#[trigger] s[i]).denom@ == d by {
            if s.last().denom@ == d {
                assert(s[s.len() - 1].denom@ == d);
            } else {
                assert(aggregated(s.drop_last()).contains_key(d));
                let i = choose|i: int|
                    0 <= i < s.drop_last().len() && (#[trigger] s.drop_last()[i]).denom@ == d;
                assert(s[i].denom@ == d);
            }
        }
        assert forall|d: Seq<char>|
            (exists|i: int| 0 <= i < s.len() && (#[trigger] s[i]).denom@ == d) implies #[trigger]
            aggregated(s).contains_key(d) by {
            let i = choose|i: int| 0 <= i < s.len() && (#[trigger] s[i]).denom@ == d;
            if i < s.len() - 1 {
                assert(s.drop_last()[i].denom@ == d);
                assert(aggregated(s.drop_last()).contains_key(d));
            }
        }
        assert forall|d: Seq<char>| #[trigger]
            aggregated(s).contains_key(d) implies aggregated(s)[d] == sum_for(s, d) by {
            if s.last().denom@ == d {
                if aggregated(s.drop_last()).contains_key(d) {
                    assert(aggregated(s.drop_last())[d] == sum_for(s.drop_last(), d));
                } else {
                    assert forall|j: int|
                        0 <= j < s.drop_last().len() implies (#[trigger] s.drop_last()[j]).denom@
                        != d by {
                        if s.drop_last()[j].denom@ == d {
                            assert(s[j].denom@ == d);
                            assert(aggregated(s.drop_last()).contains_key(d));
                        }
                    }
                    lemma_sum_absent(s.drop_last(), d);
                }
            } else {
                assert(aggregated(s.drop_last()).contains_key(d));
                assert(aggregated(s.drop_last())[d] == sum_for(s.drop_last(), d));
            }
        }
    }
}

/// Bridge between `add` and the fold: starting from amounts that match
/// `aggregated(s)` and performing the exact insert that a successful
/// `add` of coin `c` promises, the amounts match `aggregated(s.push(c))`.
/// With `lemma_aggregated_sums` this ties an aggregate built by repeated
/// `add` to the arithmetic sum of its inputs, denomination by
/// denomination.
pub proof fn lemma_add_extends_fold(
    s: Seq<Coin>,
    c: Coin,
    before: Map<Seq<char>, u128>,
    after: Map<Seq<char>, u128>,
)
    requires
        forall|d: Seq<char>| #[trigger] before.contains_key(d) <==> aggregated(s).contains_key(d),
        forall|d: Seq<char>| #[trigger] before.contains_key(d) ==> before[d] as int == aggregated(
            s,
        )[d],
        ({
            let prev: int = if before.contains_key(c.denom@) {
                before[c.denom@] as int
            } else {
                0
            };
            &&& prev + c.amount <= u128::MAX
            &&& after == before.insert(c.denom@, (prev + c.amount) as u128)
        }),
    ensures
        forall|d: Seq<char>| #[trigger] after.contains_key(d) <==> aggregated(
            s.push(c),
        ).contains_key(d),
        forall|d: Seq<char>| #[trigger] after.contains_key(d) ==> after[d] as int == aggregated(
            s.push(c),
        )[d],
{
    assert(s.push(c).drop_last() =~= s);
    assert(s.push(c).last() == c);
    let prev: int = if before.contains_key(c.denom@) {
        before[c.denom@] as int
    } else {
        0
    };
    assert(aggregated(s.push(c)) == aggregated(s).insert(c.denom@, prev + c.amount));
    assert forall|d: Seq<char>| #[trigger]
        after.contains_key(d) implies after[d] as int == aggregated(s.push(c))[d] by {
        if d != c.denom@ {
            assert(before.contains_key(d));
        }
    }
}

/// Emptiness law: the empty aggregate holds no denomination, and one
/// successful `add` leaves the added denomination present, so the
/// aggregate is no longer empty.
pub proof fn lemma_add_nonempty(m: Map<Seq<char>, u128>, d: Seq<char>, v: u128)
    ensures
        !Map::<Seq<char>, u128>::empty().contains_key(d),
        m.insert(d, v).contains_key(d),
        m.insert(d, v) != Map::<Seq<char>, u128>::empty(),
{
}

/// A denomination no entry carries sums to zero.
proof fn lemma_sum_absent(s: Seq<Coin>, d: Seq<char>)
    requires
        forall|i: int| 0 <= i < s.len() ==> (#[trigger] s[i]).denom@ != d,
    ensures
        sum_for(s, d) == 0,
    decreases s.len(),
{
    if s.len() > 0 {
        assert(s[s.len() - 1].denom@ != d);
        lemma_sum_absent(s.drop_last(), d);
    }
}

} // verus!
