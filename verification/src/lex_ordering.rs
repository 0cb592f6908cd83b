//! An endless supply of distinct short labels over an alphabet, in shortlex order: all labels
//! of length one, then all of length two, and so on, each length in lexicographic order.

use vstd::prelude::*;

use crate::unicode::push_char;

verus! {

/// The labels over `symbols`, one after another.
pub struct LexOrdering {
    symbols: Vec<char>,
    /// The digits of the current label, least significant first; each is an index into
    /// `symbols`.
    current: Vec<usize>,
}

/// The digits after `d` in shortlex order, starting the carry at position `i`: maximal digits
/// roll over to 0, the first digit that is not maximal goes up by one, and when every digit
/// rolls over a new digit 0 is added.
pub open spec fn succ_from(d: Seq<usize>, i: nat, max: usize) -> Seq<usize>
    decreases d.len() - i,
{
    if i >= d.len() {
        d.push(0)
    } else if d[i as int] == max {
        succ_from(d.update(i as int, 0), i + 1, max)
    } else {
        d.update(i as int, (d[i as int] + 1) as usize)
    }
}

/// The digits after `d` in shortlex order, for an alphabet whose last index is `max`.
pub open spec fn lex_succ(d: Seq<usize>, max: usize) -> Seq<usize> {
    succ_from(d, 0, max)
}

/// The label the digits `d` stand for: the symbols of its digits, most significant first;
/// a digit without a symbol contributes nothing.
pub open spec fn render(d: Seq<usize>, symbols: Seq<char>) -> Seq<char>
    decreases d.len(),
{
    if d.len() == 0 {
        Seq::empty()
    } else {
        render(d.drop_first(), symbols) + (if d.first() < symbols.len() {
            seq![symbols[d.first() as int]]
        } else {
            Seq::<char>::empty()
        })
    }
}

/// The last index of the alphabet (0 for an empty one).
pub open spec fn max_symbol(symbols: Seq<char>) -> usize {
    if symbols.len() == 0 {
        0
    } else {
        (symbols.len() - 1) as usize
    }
}

/// The digits after `k` steps from nothing.
pub open spec fn nth_digits(k: nat, max: usize) -> Seq<usize>
    decreases k,
{
    if k == 0 {
        Seq::empty()
    } else {
        lex_succ(nth_digits((k - 1) as nat, max), max)
    }
}

impl LexOrdering {
    /// The alphabet.
    pub closed spec fn symbols(&self) -> Seq<char> {
        self.symbols@
    }

    /// The digits of the last label given out (none before the first).
    pub closed spec fn digits(&self) -> Seq<usize> {
        self.current@
    }

    /// Every digit is within the alphabet's last index.
    pub closed spec fn wf(&self) -> bool {
        forall|i: int| 0 <= i < self.current@.len() ==> self.current@[i] <= max_symbol(self.symbols@)
    }

    /// Starts before the first label over `symbols`.
    pub fn new(symbols: Vec<char>) -> (l: LexOrdering)
        ensures
            l.symbols() == symbols@,
            l.digits() == Seq::<usize>::empty(),
            l.wf(),
    {
        LexOrdering { symbols, current: Vec::new() }
    }

    /// The next label: always `Some`, the labels never run out.
    pub fn next(&mut self) -> (label: Option<String>)
        requires
            old(self).wf(),
            old(self).digits().len() < usize::MAX,
        ensures
            final(self).wf(),
            final(self).symbols() == old(self).symbols(),
            final(self).digits() == lex_succ(old(self).digits(), max_symbol(old(self).symbols())),
            label matches Some(s) && s@ == render(final(self).digits(), final(self).symbols()),
    {
        let max_symb = self.symbols.len().saturating_sub(1);
        let ghost d0 = self.current@;
        let ghost m = max_symbol(self.symbols@);
        assert(max_symb == m);
        let mut index: usize = 0;
        while index < self.current.len() && self.current[index] == max_symb
            invariant
                index <= self.current@.len(),
                self.current@.len() == d0.len(),
                succ_from(self.current@, index as nat, m) == succ_from(d0, 0, m),
                max_symb == m,
                m == max_symbol(self.symbols@),
                self.symbols@ == old(self).symbols@,
                forall|i: int| 0 <= i < self.current@.len() ==> self.current@[i] <= m,
            decreases self.current.len() - index,
        {
            self.current.set(index, 0);
            index += 1;
        }
        if index < self.current.len() {
            let v = self.current[index];
            self.current.set(index, v + 1);
        } else {
            self.current.push(0);
        }
        let mut s = String::new();
        let mut i = self.current.len();
        let ghost d = self.current@;
        assert(d.subrange(i as int, d.len() as int) =~= Seq::<usize>::empty());
        while i > 0
            invariant
                i <= d.len(),
                d == self.current@,
                self.symbols@ == old(self).symbols@,
                s@ == render(d.subrange(i as int, d.len() as int), self.symbols@),
            decreases i,
        {
            let digit = self.current[i - 1];
            let ghost sub = d.subrange(i - 1, d.len() as int);
            assert(sub.drop_first() =~= d.subrange(i as int, d.len() as int));
            assert(sub.first() == digit);
            if digit < self.symbols.len() {
                push_char(&mut s, self.symbols[digit]);
            } else {
                assert(s@ == s@ + Seq::<char>::empty());
            }
            i -= 1;
        }
        assert(d.subrange(0, d.len() as int) == d);
        Some(s)
    }
}

/// The labels over `symbols`; there must be at least one symbol.
pub fn lex_ordering(symbols: Vec<char>) -> (r: Result<LexOrdering, &'static str>)
    ensures
        r is Err <==> symbols@.len() == 0,
        r matches Err(m) ==> m@ == "there must be at least one symbol"@,
        r matches Ok(l) ==> l.symbols() == symbols@ && l.digits() == Seq::<usize>::empty() && l.wf(),
{
    if symbols.len() == 0 {
        proof {
            reveal_strlit("there must be at least one symbol");
        }
        return Err("there must be at least one symbol");
    }
    Ok(LexOrdering::new(symbols))
}

} // verus!
