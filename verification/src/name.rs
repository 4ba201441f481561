//! Names for what a transformation adds: each is like a name of the source module and differs
//! from every name given before it.

use std::collections::HashSet;

use vstd::prelude::*;
use vstd::string::{StrSliceExecFns, StringExecFns};

verus! {

/// Whether a character is one of the ten digits.
pub open spec fn spec_is_digit(c: char) -> bool {
    '0' <= c <= '9'
}

#[verifier::when_used_as_spec(spec_is_digit)]
pub fn is_digit(c: char) -> (r: bool)
    ensures
        r == spec_is_digit(c),
{
    '0' <= c && c <= '9'
}

/// The value of a digit.
pub open spec fn digit_value(c: char) -> nat {
    (c as u32 - '0' as u32) as nat
}

/// The digit with a value below ten.
pub open spec fn spec_digit_of(d: nat) -> char {
    if d == 0 {
        '0'
    } else if d == 1 {
        '1'
    } else if d == 2 {
        '2'
    } else if d == 3 {
        '3'
    } else if d == 4 {
        '4'
    } else if d == 5 {
        '5'
    } else if d == 6 {
        '6'
    } else if d == 7 {
        '7'
    } else if d == 8 {
        '8'
    } else {
        '9'
    }
}

/// Whether all characters are digits.
pub open spec fn all_digits(s: Seq<char>) -> bool {
    forall|i: int| 0 <= i < s.len() ==> spec_is_digit(#[trigger] s[i])
}

/// The number that a run of digits writes in base ten.
pub open spec fn value(digits: Seq<char>) -> nat
    decreases digits.len(),
{
    if digits.len() == 0 {
        0
    } else {
        value(digits.drop_last()) * 10 + digit_value(digits.last())
    }
}

/// A number in base ten, without leading zeros.
pub open spec fn decimal(n: nat) -> Seq<char>
    decreases n,
{
    if n < 10 {
        seq![spec_digit_of(n)]
    } else {
        decimal(n / 10).push(spec_digit_of(n % 10))
    }
}

/// Where the digits at the end of a name begin: the length of the name if it ends with no digit.
pub open spec fn digits_start(name: Seq<char>) -> int
    decreases name.len(),
{
    if name.len() > 0 && spec_is_digit(name.last()) {
        digits_start(name.drop_last())
    } else {
        name.len() as int
    }
}

/// A name taken apart: where the name ends with an underscore and a number that fits in 32
/// bits, what stands before the underscore, and the number; else the name itself, and no number.
pub open spec fn spec_decompose(name: Seq<char>) -> (Seq<char>, Option<u32>) {
    let start = digits_start(name);
    if 0 < start < name.len() && name[start - 1] == '_' && value(
        name.subrange(start, name.len() as int),
    ) <= u32::MAX {
        (name.take(start - 1), Some(value(name.subrange(start, name.len() as int)) as u32))
    } else {
        (name, None)
    }
}

/// A base and a number put together: the base, an underscore, and the number in base ten.
pub open spec fn numbered(base: Seq<char>, number: u32) -> Seq<char> {
    base + seq!['_'] + decimal(number as nat)
}

/// The digits at the end of a name begin within the name, behind a character that is no digit,
/// and all that follows are digits.
pub proof fn lemma_digits_start(name: Seq<char>)
    ensures
        0 <= digits_start(name) <= name.len(),
        all_digits(name.subrange(digits_start(name), name.len() as int)),
        digits_start(name) > 0 ==> !spec_is_digit(name[digits_start(name) - 1]),
    decreases name.len(),
{
    if name.len() > 0 && spec_is_digit(name.last()) {
        lemma_digits_start(name.drop_last());
        let start = digits_start(name);
        let tail = name.subrange(start, name.len() as int);
        assert forall|i: int| 0 <= i < tail.len() implies spec_is_digit(#[trigger] tail[i]) by {
            if i < tail.len() - 1 {
                assert(tail[i] == name.drop_last().subrange(start, name.len() - 1)[i]);
            }
        }
    }
}

/// Digits behind a name that ends with no digit are the digits at the end of the whole.
pub proof fn lemma_digits_start_append(head: Seq<char>, digits: Seq<char>)
    requires
        head.len() == 0 || !spec_is_digit(head.last()),
        all_digits(digits),
    ensures
        digits_start(head + digits) == head.len(),
    decreases digits.len(),
{
    if digits.len() == 0 {
        assert(head + digits =~= head);
    } else {
        let whole = head + digits;
        assert(whole.last() == digits.last());
        assert(whole.drop_last() =~= head + digits.drop_last());
        lemma_digits_start_append(head, digits.drop_last());
    }
}

/// A number in base ten is a run of digits that writes the number.
pub proof fn lemma_decimal(n: nat)
    ensures
        decimal(n).len() > 0,
        all_digits(decimal(n)),
        value(decimal(n)) == n,
    decreases n,
{
    if n < 10 {
        let d = decimal(n);
        assert(d.drop_last() =~= Seq::<char>::empty());
        assert(value(d.drop_last()) == 0);
    } else {
        lemma_decimal(n / 10);
        let d = decimal(n);
        assert(d.drop_last() =~= decimal(n / 10));
    }
}

/// A base and a number put together come apart into the base and the number.
pub proof fn lemma_decompose_numbered(base: Seq<char>, number: u32)
    ensures
        spec_decompose(numbered(base, number)) == (base, Some(number)),
{
    let digits = decimal(number as nat);
    let head = base + seq!['_'];
    let name = numbered(base, number);
    lemma_decimal(number as nat);
    assert(!spec_is_digit('_'));
    assert(head.last() == '_');
    lemma_digits_start_append(head, digits);
    assert(name =~= head + digits);
    let start = digits_start(name);
    assert(start == base.len() + 1);
    assert(name.subrange(start, name.len() as int) =~= digits);
    assert(name.take(start - 1) =~= base);
    assert(name[start - 1] == '_');
}

/// The digits of a longer run write a number that is not smaller.
pub proof fn lemma_value_monotone(digits: Seq<char>, k: int)
    requires
        0 <= k <= digits.len(),
    ensures
        value(digits.take(k)) <= value(digits),
    decreases digits.len() - k,
{
    if k < digits.len() {
        lemma_value_monotone(digits.drop_last(), k);
        assert(digits.drop_last().take(k) =~= digits.take(k));
    } else {
        assert(digits.take(k) =~= digits);
    }
}

/// Take a name apart into its base and its number.
pub fn decompose<'a>(name: &'a str) -> (r: (&'a str, Option<u32>))
    ensures
        (r.0@, r.1) == spec_decompose(name@),
{
    let n = name.unicode_len();
    let mut start: usize = n;
    assert(name@.take(n as int) =~= name@);
    while start > 0 && is_digit(name.get_char(start - 1))
        invariant
            start <= n == name@.len(),
            digits_start(name@) == digits_start(name@.take(start as int)),
        decreases start,
    {
        assert(name@.take(start as int).drop_last() =~= name@.take(start - 1));
        start -= 1;
    }
    assert(name@.take(n as int) =~= name@);
    assert(start == digits_start(name@)) by {
        if start > 0 {
            assert(name@.take(start as int).last() == name@[start - 1]);
        }
    }
    if start == 0 || start == n || name.get_char(start - 1) != '_' {
        return (name, None);
    }
    let ghost digits = name@.subrange(start as int, n as int);
    let mut number: u32 = 0;
    let mut i: usize = start;
    proof {
        lemma_digits_start(name@);
        assert(digits.take(0) =~= Seq::<char>::empty());
    }
    while i < n
        invariant
            0 < start <= i <= n == name@.len(),
            start < n,
            start == digits_start(name@),
            name@[start - 1] == '_',
            digits == name@.subrange(start as int, n as int),
            all_digits(digits),
            number == value(digits.take(i - start)),
        decreases n - i,
    {
        let c = name.get_char(i);
        assert(c == digits[i - start]);
        let d = c as u32 - '0' as u32;
        proof {
            assert(digits.take(i - start + 1).drop_last() =~= digits.take(i - start));
            assert(digits.take(i - start + 1).last() == c);
            lemma_value_monotone(digits, i - start + 1);
        }
        if number > (u32::MAX - d) / 10 {
            return (name, None);
        }
        number = number * 10 + d;
        i += 1;
    }
    assert(digits.take(n - start) =~= digits);
    let base = name.substring_char(0, start - 1);
    assert(base@ =~= name@.take(start - 1));
    (base, Some(number))
}

/// The digit with a value below ten, as a string.
fn digit_str(d: u32) -> (s: &'static str)
    requires
        d < 10,
    ensures
        s@ == seq![spec_digit_of(d as nat)],
{
    proof {
        reveal_strlit("0");
        reveal_strlit("1");
        reveal_strlit("2");
        reveal_strlit("3");
        reveal_strlit("4");
        reveal_strlit("5");
        reveal_strlit("6");
        reveal_strlit("7");
        reveal_strlit("8");
        reveal_strlit("9");
    }
    let s = match d {
        0 => "0",
        1 => "1",
        2 => "2",
        3 => "3",
        4 => "4",
        5 => "5",
        6 => "6",
        7 => "7",
        8 => "8",
        _ => "9",
    };
    assert(s@ =~= seq![spec_digit_of(d as nat)]);
    s
}

/// Append a number in base ten to a string.
fn push_decimal(s: &mut String, n: u32)
    ensures
        final(s)@ == old(s)@ + decimal(n as nat),
    decreases n,
{
    if n >= 10 {
        push_decimal(s, n / 10);
    }
    s.append(digit_str(n % 10));
    assert(s@ =~= old(s)@ + decimal(n as nat));
}

/// Put a base and a number together.
pub fn recompose(base: &str, number: u32) -> (r: String)
    ensures
        r@ == numbered(base@, number),
{
    let mut out = String::from_str(base);
    proof {
        reveal_strlit("_");
    }
    out.append("_");
    push_decimal(&mut out, number);
    assert(out@ =~= numbered(base@, number));
    out
}

/// The numbers that are in use behind one base.
pub struct NameNumbers {
    base_available: bool,
    taken: HashSet<u32>,
    mex: u32,
}

/// What a [`NameNumbers`] holds.
pub struct NameNumbersView {
    /// Whether the base itself, without a number, is still free.
    pub base_available: bool,
    /// The numbers in use.
    pub taken: Set<u32>,
    /// A number below which all numbers are in use.
    pub mex: u32,
}

/// The first number from `from` on that is not in use, or `u32::MAX` if all are in use.
pub open spec fn first_free(taken: Set<u32>, from: u32) -> u32
    decreases u32::MAX - from,
{
    if from == u32::MAX || !taken.contains(from) {
        from
    } else {
        first_free(taken, (from + 1) as u32)
    }
}

/// All numbers from `from` up to the first free one are in use.
pub proof fn lemma_first_free(taken: Set<u32>, from: u32)
    ensures
        from <= first_free(taken, from),
        forall|k: u32| from <= k < first_free(taken, from) ==> taken.contains(k),
    decreases u32::MAX - from,
{
    if !(from == u32::MAX || !taken.contains(from)) {
        lemma_first_free(taken, (from + 1) as u32);
    }
}

impl NameNumbersView {
    /// Nothing is in use.
    pub open spec fn fresh() -> Self {
        NameNumbersView { base_available: true, taken: Set::empty(), mex: 0 }
    }

    /// All numbers below `mex` are in use.
    pub open spec fn wf(self) -> bool {
        forall|k: u32| k < self.mex ==> self.taken.contains(k)
    }

    /// Whether no number is free.
    pub open spec fn exhausted(self) -> bool {
        self.taken.contains(first_free(self.taken, self.mex))
    }

    /// The number given for a wish for `number`, and the state after it: the number itself if
    /// it is free, else the smallest number that is free.
    pub open spec fn insert_number(self, number: u32) -> (Self, u32) {
        if !self.taken.contains(number) {
            (NameNumbersView { taken: self.taken.insert(number), ..self }, number)
        } else {
            let k = first_free(self.taken, self.mex);
            (NameNumbersView { taken: self.taken.insert(k), mex: k, ..self }, k)
        }
    }

    /// What is given for a wish for the base without a number, and the state after it: the base
    /// if it is free, else the smallest number that is free.
    pub open spec fn insert_base(self) -> (Self, Option<u32>) {
        if self.base_available {
            (NameNumbersView { base_available: false, ..self }, None)
        } else {
            (self.insert_number(self.mex).0, Some(self.insert_number(self.mex).1))
        }
    }

    /// What is given for a wish, and the state after it.
    pub open spec fn insert(self, number: Option<u32>) -> (Self, Option<u32>) {
        match number {
            Some(n) => (self.insert_number(n).0, Some(self.insert_number(n).1)),
            None => self.insert_base(),
        }
    }

    /// Whether a wish is met with something that was given before: only where no number is
    /// free any more.
    pub open spec fn fails(self, number: Option<u32>) -> bool {
        match number {
            Some(n) => self.taken.contains(n) && self.exhausted(),
            None => !self.base_available && self.exhausted(),
        }
    }

    /// Whether the base, for `None`, or a number is in use.
    pub open spec fn holds(self, number: Option<u32>) -> bool {
        match number {
            Some(n) => self.taken.contains(n),
            None => !self.base_available,
        }
    }

    /// What is given is in use afterwards, was free before unless no number was free, and all
    /// that was in use stays in use.
    pub proof fn lemma_insert(self, number: Option<u32>)
        requires
            self.wf(),
        ensures
            self.insert(number).0.wf(),
            self.insert(number).0.holds(self.insert(number).1),
            !self.fails(number) ==> !self.holds(self.insert(number).1),
            forall|other: Option<u32>| self.holds(other) ==> self.insert(number).0.holds(other),
            self.insert(number).1 != number ==> self.insert(number).1 is Some,
    {
        lemma_first_free(self.taken, self.mex);
    }
}

impl View for NameNumbers {
    type V = NameNumbersView;

    closed spec fn view(&self) -> NameNumbersView {
        NameNumbersView { base_available: self.base_available, taken: self.taken@, mex: self.mex }
    }
}

impl NameNumbers {
    pub fn new() -> (r: Self)
        ensures
            r@ == NameNumbersView::fresh(),
    {
        Self { base_available: true, taken: HashSet::new(), mex: 0 }
    }

    /// Take the base if it is free, else the smallest free number.
    pub fn insert_base(&mut self) -> (r: Option<u32>)
        requires
            old(self)@.wf(),
        ensures
            (final(self)@, r) == old(self)@.insert_base(),
    {
        if self.base_available {
            self.base_available = false;
            None
        } else {
            let mex = self.mex;
            Some(self.insert_number(mex))
        }
    }

    /// Take `number` if it is free, else the smallest free number.
    pub fn insert_number(&mut self, number: u32) -> (r: u32)
        requires
            old(self)@.wf(),
        ensures
            (final(self)@, r) == old(self)@.insert_number(number),
    {
        broadcast use vstd::std_specs::hash::group_hash_axioms;

        if self.taken.insert(number) {
            number
        } else {
            assert(self.taken@ =~= old(self).taken@);
            while self.mex < u32::MAX && self.taken.contains(&self.mex)
                invariant
                    self.taken@ == old(self).taken@,
                    self.base_available == old(self).base_available,
                    old(self).mex <= self.mex,
                    first_free(self.taken@, self.mex) == first_free(old(self).taken@, old(self).mex),
                decreases u32::MAX - self.mex,
            {
                self.mex += 1;
            }
            let k = self.mex;
            self.taken.insert(k);
            k
        }
    }

    /// Take what is wished for if it is free, else the smallest free number.
    pub fn insert(&mut self, number: Option<u32>) -> (r: Option<u32>)
        requires
            old(self)@.wf(),
        ensures
            (final(self)@, r) == old(self)@.insert(number),
    {
        match number {
            Some(n) => Some(self.insert_number(n)),
            None => self.insert_base(),
        }
    }
}

/// For each base, the numbers in use behind it.
pub type Used = Map<Seq<char>, NameNumbersView>;

/// The numbers in use behind a base: nothing where the base is not known.
pub open spec fn numbers_of(names: Used, base: Seq<char>) -> NameNumbersView {
    if names.contains_key(base) {
        names[base]
    } else {
        NameNumbersView::fresh()
    }
}

/// The name given for a wish for `name`: the name itself if it is free, else its base with the
/// smallest number that is free behind the base.
pub open spec fn given(names: Used, name: Seq<char>) -> Seq<char> {
    let (base, number) = spec_decompose(name);
    let chosen = numbers_of(names, base).insert(number).1;
    if chosen == number {
        name
    } else {
        numbered(base, chosen->Some_0)
    }
}

/// The names in use after a wish for `name`.
pub open spec fn after(names: Used, name: Seq<char>) -> Used {
    let (base, number) = spec_decompose(name);
    names.insert(base, numbers_of(names, base).insert(number).0)
}

/// Whether a name is in use.
pub open spec fn in_use(names: Used, name: Seq<char>) -> bool {
    let (base, number) = spec_decompose(name);
    names.contains_key(base) && names[base].holds(number)
}

/// Whether a wish for `name` is met with a name that was given before: only where no number
/// is free behind its base any more.
pub open spec fn fails(names: Used, name: Seq<char>) -> bool {
    let (base, number) = spec_decompose(name);
    numbers_of(names, base).fails(number)
}

/// Whether the numbers behind every base are well formed.
pub open spec fn names_wf(names: Used) -> bool {
    forall|base: Seq<char>| names.contains_key(base) ==> (#[trigger] names[base]).wf()
}

/// Every name that is given is in use afterwards, was free before, unless no number was free
/// behind its base, and all names that were in use stay in use. So no name is given twice.
pub proof fn lemma_given_is_new(names: Used, name: Seq<char>)
    requires
        names_wf(names),
    ensures
        names_wf(after(names, name)),
        in_use(after(names, name), given(names, name)),
        !fails(names, name) ==> !in_use(names, given(names, name)),
        forall|other: Seq<char>| in_use(names, other) ==> in_use(after(names, name), other),
{
    let (base, number) = spec_decompose(name);
    let numbers = numbers_of(names, base);
    numbers.lemma_insert(number);
    let chosen = numbers.insert(number).1;
    if chosen != number {
        lemma_decompose_numbered(base, chosen->Some_0);
    }
    assert forall|other: Seq<char>| in_use(names, other) implies in_use(
        after(names, name),
        other,
    ) by {
        let (b, n) = spec_decompose(other);
        if b == base {
            assert(numbers.holds(n));
        }
    }
}

/// A set of names that can efficiently give a name not in the set but similar to a name in the
/// set.
pub struct NameSet {
    names: Vec<(String, NameNumbers)>,
    model: Ghost<Used>,
    issued: Ghost<Set<Seq<char>>>,
}

impl View for NameSet {
    type V = Used;

    closed spec fn view(&self) -> Used {
        self.model@
    }
}

impl NameSet {
    /// The names that the set has given.
    pub closed spec fn issued(&self) -> Set<Seq<char>> {
        self.issued@
    }

    /// The list holds each base once, with the numbers that the model has for it, and every
    /// name given is in use.
    pub closed spec fn wf(&self) -> bool {
        &&& names_wf(self.model@)
        &&& forall|i: int|
            0 <= i < self.names@.len() ==> self.model@.contains_key((#[trigger] self.names@[i]).0@)
                && self.model@[self.names@[i].0@] == self.names@[i].1@
        &&& forall|base: Seq<char>| #[trigger]
            self.model@.contains_key(base) ==> exists|i: int|
                0 <= i < self.names@.len() && (#[trigger] self.names@[i]).0@ == base
        &&& forall|i: int, j: int|
            0 <= i < j < self.names@.len() ==> (#[trigger] self.names@[i]).0@ != (
            #[trigger] self.names@[j]).0@
        &&& forall|name: Seq<char>| #[trigger]
            self.issued@.contains(name) ==> in_use(self.model@, name)
    }

    /// Empty set of names.
    pub fn new() -> (r: Self)
        ensures
            r.wf(),
            r@ == Map::<Seq<char>, NameNumbersView>::empty(),
            r.issued() == Set::<Seq<char>>::empty(),
    {
        Self { names: Vec::new(), model: Ghost(Map::empty()), issued: Ghost(Set::empty()) }
    }

    /// Where the numbers behind a base stand in the list, if the base is known.
    fn find(&self, base: &str) -> (r: Option<usize>)
        requires
            self.wf(),
        ensures
            match r {
                Some(i) => i < self.names@.len() && self.names@[i as int].0@ == base@,
                None => !self@.contains_key(base@),
            },
    {
        let key = String::from_str(base);
        let mut i: usize = 0;
        while i < self.names.len()
            invariant
                i <= self.names@.len(),
                key@ == base@,
                forall|j: int| 0 <= j < i ==> (#[trigger] self.names@[j]).0@ != base@,
            decreases self.names@.len() - i,
        {
            if self.names[i].0 == key {
                return Some(i);
            }
            i += 1;
        }
        None
    }

    /// Insert a name into the set.
    ///
    /// If `name` was not already in the set, it is returned. Otherwise, a similar name that
    /// wasn't previously in the set is returned: the base of the name with the smallest number
    /// that is free behind the base.
    pub fn insert(&mut self, name: &str) -> (r: String)
        requires
            old(self).wf(),
        ensures
            final(self).wf(),
            r@ == given(old(self)@, name@),
            final(self)@ == after(old(self)@, name@),
            final(self).issued() == old(self).issued().insert(r@),
            !fails(old(self)@, name@) ==> !old(self).issued().contains(r@),
    {
        let (base, number) = decompose(name);
        let found = match self.find(base) {
            Some(i) => i,
            None => {
                self.names.push((String::from_str(base), NameNumbers::new()));
                self.names.len() - 1
            },
        };
        let ghost before = numbers_of(self.model@, base@);
        assert(self.names@[found as int].1@ == before);
        let chosen = self.names[found].1.insert(number);
        let out = if chosen == number {
            String::from_str(name)
        } else {
            match chosen {
                Some(n) => recompose(base, n),
                None => String::from_str(name),
            }
        };
        proof {
            lemma_given_is_new(old(self).model@, name@);
            before.lemma_insert(number);
            self.model@ = after(old(self).model@, name@);
            self.issued@ = old(self).issued@.insert(out@);
            assert(self.names@[found as int].0@ == base@);
            assert forall|b: Seq<char>| #[trigger] self.model@.contains_key(b) implies exists|
                i: int,
            |
                0 <= i < self.names@.len() && (#[trigger] self.names@[i]).0@ == b by {
                if b == base@ {
                    assert(self.names@[found as int].0@ == b);
                } else {
                    assert(old(self).model@.contains_key(b));
                    let i = choose|i: int|
                        0 <= i < old(self).names@.len() && (#[trigger] old(self).names@[i]).0@ == b;
                    assert(self.names@[i].0@ == b);
                }
            }
        }
        out
    }

    /// Done adding the names of the source module; transition to the next phase.
    pub fn done(self) -> (r: NameGen)
        requires
            self.wf(),
        ensures
            r.wf(),
            r@ == self@,
            r.issued() == self.issued(),
    {
        NameGen { inner: self }
    }
}

/// Names for what a transformation adds, behind the names of the source module.
pub struct NameGen {
    inner: NameSet,
}

impl View for NameGen {
    type V = Used;

    closed spec fn view(&self) -> Used {
        self.inner@
    }
}

impl NameGen {
    /// The names that were given, before the source module was done and after.
    pub closed spec fn issued(&self) -> Set<Seq<char>> {
        self.inner.issued()
    }

    pub closed spec fn wf(&self) -> bool {
        self.inner.wf()
    }

    /// No names of a source module.
    pub fn new() -> (r: Self)
        ensures
            r.wf(),
            r@ == Map::<Seq<char>, NameNumbersView>::empty(),
            r.issued() == Set::<Seq<char>>::empty(),
    {
        NameGen { inner: NameSet::new() }
    }

    /// Insert a name into the set.
    ///
    /// If `name` was not already in the set, it is returned. Otherwise, a similar name that
    /// wasn't previously in the set is returned. Either way the name that is returned is in the
    /// set afterwards, so that it is given only once.
    pub fn insert(&mut self, name: &str) -> (r: String)
        requires
            old(self).wf(),
        ensures
            final(self).wf(),
            r@ == given(old(self)@, name@),
            final(self)@ == after(old(self)@, name@),
            final(self).issued() == old(self).issued().insert(r@),
            !fails(old(self)@, name@) ==> !old(self).issued().contains(r@),
    {
        self.inner.insert(name)
    }
}

} // verus!
