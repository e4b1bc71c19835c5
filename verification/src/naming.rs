//! Names for the scope parameters that the rewrite introduces.
//!
//! A name is a marker followed by a number in decimal. Different numbers give different
//! names, so among the first `len + 1` names at least one is not declared by a parameter
//! list of length `len`: the search for a free name ends, and its number fits in a `usize`.

use vstd::prelude::*;
use crate::{introduce_new_generic_lt, scope_count, scope_param, with_scope_param};
use crate::lifetime_elision::Resolver;
use crate::syntax::{GenericParam, GenericParamView, Generics, GenericsView, Position, Scope, ScopeView};

verus! {

/// The decimal digit for `d`, which is below ten.
pub open spec fn digit(d: nat) -> char {
    if d == 0 {
        '0'
    } else if d == 1 {
        '1'
    } else if d == 2 {
        '2'
    } else if d == 3 {
        '3'
    } else if d == 4 {
        '4'
    } else if d == 5 {
        '5'
    } else if d == 6 {
        '6'
    } else if d == 7 {
        '7'
    } else if d == 8 {
        '8'
    } else {
        '9'
    }
}

/// `n` written in decimal, without leading zeros.
pub open spec fn decimal(n: nat) -> Seq<char>
    decreases n,
{
    if n < 10 {
        seq![digit(n)]
    } else {
        decimal(n / 10).push(digit(n % 10))
    }
}

/// The name with number `n` under `marker`.
pub open spec fn numbered_name(marker: Seq<char>, n: nat) -> Seq<char> {
    marker + decimal(n)
}

/// The number that a character stands for as a decimal digit.
pub open spec fn digit_value(c: char) -> nat {
    if c == '1' {
        1
    } else if c == '2' {
        2
    } else if c == '3' {
        3
    } else if c == '4' {
        4
    } else if c == '5' {
        5
    } else if c == '6' {
        6
    } else if c == '7' {
        7
    } else if c == '8' {
        8
    } else if c == '9' {
        9
    } else {
        0
    }
}

/// The number that a sequence of decimal digits stands for.
pub open spec fn decimal_value(digits: Seq<char>) -> nat
    decreases digits.len(),
{
    if digits.len() == 0 {
        0
    } else {
        decimal_value(digits.drop_last()) * 10 + digit_value(digits.last())
    }
}

/// Reading a number back from its decimal form gives the number.
pub proof fn lemma_decimal_value(n: nat)
    ensures
        decimal_value(decimal(n)) == n,
    decreases n,
{
    if n < 10 {
        assert(decimal_value(decimal(n).drop_last()) == 0);
    } else {
        lemma_decimal_value(n / 10);
        assert(decimal(n).drop_last() =~= decimal(n / 10));
    }
}

/// Different numbers have different names.
pub proof fn lemma_numbered_names_differ(marker: Seq<char>, a: nat, b: nat)
    requires
        a != b,
    ensures
        numbered_name(marker, a) != numbered_name(marker, b),
{
    let name_a = numbered_name(marker, a);
    let name_b = numbered_name(marker, b);
    if name_a == name_b {
        assert(name_a.subrange(marker.len() as int, name_a.len() as int) =~= decimal(a));
        assert(name_b.subrange(marker.len() as int, name_b.len() as int) =~= decimal(b));
        lemma_decimal_value(a);
        lemma_decimal_value(b);
    }
}

/// One decimal digit as text.
fn digit_text(d: usize) -> (text: &'static str)
    requires
        d < 10,
    ensures
        text@ == seq![digit(d as nat)],
{
    proof {
        reveal_strlit("0");
        reveal_strlit("1");
        reveal_strlit("2");
        reveal_strlit("3");
        reveal_strlit("4");
        reveal_strlit("5");
        reveal_strlit("6");
        reveal_strlit("7");
        reveal_strlit("8");
        reveal_strlit("9");
    }
    if d == 0 {
        "0"
    } else if d == 1 {
        "1"
    } else if d == 2 {
        "2"
    } else if d == 3 {
        "3"
    } else if d == 4 {
        "4"
    } else if d == 5 {
        "5"
    } else if d == 6 {
        "6"
    } else if d == 7 {
        "7"
    } else if d == 8 {
        "8"
    } else {
        "9"
    }
}

/// A number as decimal text.
pub fn decimal_text(n: usize) -> (text: String)
    ensures
        text@ == decimal(n as nat),
    decreases n,
{
    if n < 10 {
        String::from_str(digit_text(n))
    } else {
        let mut text = decimal_text(n / 10);
        text.append(digit_text(n % 10));
        text
    }
}

/// The name with number `n` under `marker`, as text.
pub fn numbered_name_text(marker: &str, n: usize) -> (name: String)
    ensures
        name@ == numbered_name(marker@, n as nat),
{
    let mut name = String::from_str(marker);
    let number = decimal_text(n);
    name.append(number.as_str());
    name
}

/// Whether a generic parameter is a scope parameter of the given name.
pub open spec fn names_scope(param: GenericParamView, name: Seq<char>) -> bool {
    param matches GenericParamView::Scope { scope, .. } && scope.name == name
}

/// Whether a parameter list declares a scope parameter of the given name.
pub open spec fn declares(params: Seq<GenericParamView>, name: Seq<char>) -> bool {
    exists|i: int| 0 <= i < params.len() && names_scope(#[trigger] params[i], name)
}

/// Whether `k` is one of `numbers` and `param` declares its name.
spec fn takes_number(numbers: Set<int>, param: GenericParamView, marker: Seq<char>, k: int) -> bool {
    numbers.contains(k) && names_scope(param, numbered_name(marker, k as nat))
}

/// No more numbers can have their names declared than there are parameters.
pub proof fn lemma_declared_numbers_bounded(
    params: Seq<GenericParamView>,
    marker: Seq<char>,
    numbers: Set<int>,
)
    requires
        numbers.finite(),
        forall|k: int| #[trigger]
            numbers.contains(k) ==> 0 <= k && declares(params, numbered_name(marker, k as nat)),
    ensures
        numbers.len() <= params.len(),
    decreases params.len(),
{
    if numbers.len() == 0 {
    } else if params.len() == 0 {
        let k = numbers.choose();
        assert(numbers.contains(k));
    } else {
        let front = params.drop_last();
        let last = params.last();
        if exists|k: int| takes_number(numbers, last, marker, k) {
            let taken = choose|k: int| takes_number(numbers, last, marker, k);
            let rest = numbers.remove(taken);
            assert forall|k: int| #[trigger] rest.contains(k) implies 0 <= k && declares(
                front,
                numbered_name(marker, k as nat),
            ) by {
                let name = numbered_name(marker, k as nat);
                let i = choose|i: int| 0 <= i < params.len() && names_scope(#[trigger] params[i], name);
                if i == params.len() - 1 {
                    lemma_numbered_names_differ(marker, k as nat, taken as nat);
                }
                assert(front[i] == params[i]);
            }
            lemma_declared_numbers_bounded(front, marker, rest);
        } else {
            assert forall|k: int| #[trigger] numbers.contains(k) implies 0 <= k && declares(
                front,
                numbered_name(marker, k as nat),
            ) by {
                let name = numbered_name(marker, k as nat);
                let i = choose|i: int| 0 <= i < params.len() && names_scope(#[trigger] params[i], name);
                assert(!takes_number(numbers, last, marker, k));
                assert(front[i] == params[i]);
            }
            lemma_declared_numbers_bounded(front, marker, numbers);
        }
    }
}

/// If the names of all numbers from `from` up to `to` are declared, there are at least
/// `to - from` parameters.
pub proof fn lemma_declared_range_bounded(
    params: Seq<GenericParamView>,
    marker: Seq<char>,
    from: nat,
    to: nat,
)
    requires
        from <= to,
        forall|k: nat| from <= k < to ==> declares(params, #[trigger] numbered_name(marker, k)),
    ensures
        to - from <= params.len(),
{
    let numbers = vstd::set_lib::set_int_range(from as int, to as int);
    vstd::set_lib::lemma_int_range(from as int, to as int);
    assert forall|k: int| #[trigger] numbers.contains(k) implies 0 <= k && declares(
        params,
        numbered_name(marker, k as nat),
    ) by {
        assert(from <= (k as nat) && (k as nat) < to);
    }
    lemma_declared_numbers_bounded(params, marker, numbers);
}

/// Whether `n` is the least number from `from` on whose name is not declared.
pub open spec fn is_first_free(
    params: Seq<GenericParamView>,
    marker: Seq<char>,
    from: nat,
    n: nat,
) -> bool {
    &&& from <= n
    &&& !declares(params, numbered_name(marker, n))
    &&& forall|k: nat| from <= k < n ==> declares(params, #[trigger] numbered_name(marker, k))
}

/// The least number from `from` on whose name is not declared.
pub open spec fn first_free(params: Seq<GenericParamView>, marker: Seq<char>, from: nat) -> nat {
    choose|n: nat| is_first_free(params, marker, from, n)
}

proof fn lemma_first_free_from(
    params: Seq<GenericParamView>,
    marker: Seq<char>,
    from: nat,
    at: nat,
)
    requires
        from <= at,
        forall|k: nat| from <= k < at ==> declares(params, #[trigger] numbered_name(marker, k)),
    ensures
        exists|n: nat| is_first_free(params, marker, from, n),
    decreases params.len() + from - at,
{
    lemma_declared_range_bounded(params, marker, from, at);
    if !declares(params, numbered_name(marker, at)) {
        assert(is_first_free(params, marker, from, at));
    } else {
        lemma_declared_range_bounded(params, marker, from, at + 1);
        lemma_first_free_from(params, marker, from, at + 1);
    }
}

/// There is always a free name, and `first_free` is the number of the first one.
pub proof fn lemma_first_free(params: Seq<GenericParamView>, marker: Seq<char>, from: nat)
    ensures
        is_first_free(params, marker, from, first_free(params, marker, from)),
        first_free(params, marker, from) - from <= params.len(),
{
    lemma_first_free_from(params, marker, from, from);
    lemma_declared_range_bounded(params, marker, from, first_free(params, marker, from));
}

/// Only one number is the first free one.
pub proof fn lemma_first_free_unique(
    params: Seq<GenericParamView>,
    marker: Seq<char>,
    from: nat,
    n: nat,
)
    requires
        is_first_free(params, marker, from, n),
    ensures
        n == first_free(params, marker, from),
{
    let m = first_free(params, marker, from);
    if n < m {
        assert(declares(params, numbered_name(marker, n)));
    } else if m < n {
        assert(declares(params, numbered_name(marker, m)));
    }
}

/// A declared name stays declared when a parameter is put into the list, and the name of
/// the parameter put in is declared afterwards.
pub proof fn lemma_insert_declares(
    params: Seq<GenericParamView>,
    at: int,
    param: GenericParamView,
    name: Seq<char>,
)
    requires
        0 <= at <= params.len(),
        declares(params, name) || names_scope(param, name),
    ensures
        declares(params.insert(at, param), name),
{
    let longer = params.insert(at, param);
    if names_scope(param, name) {
        assert(names_scope(longer[at], name));
    } else {
        let i = choose|i: int| 0 <= i < params.len() && names_scope(#[trigger] params[i], name);
        if i < at {
            assert(names_scope(longer[i], name));
        } else {
            assert(names_scope(longer[i + 1], name));
        }
    }
}

/// Whether the generics declare a scope parameter called `name`.
pub fn declares_scope(generics: &Generics, name: &String) -> (found: bool)
    ensures
        found == declares(generics@.params, name@),
{
    let mut i: usize = 0;
    while i < generics.params.len()
        invariant
            i <= generics.params.len(),
            forall|j: int| 0 <= j < i ==> !names_scope(#[trigger] generics@.params[j], name@),
        decreases generics.params.len() - i,
    {
        match &generics.params[i] {
            GenericParam::Scope { scope, .. } => {
                if scope.name == *name {
                    assert(names_scope(generics@.params[i as int], name@));
                    return true;
                }
            },
            _ => {},
        }
        i += 1;
    }
    false
}

/// Finds the first number from `from` on whose name under `marker` the generics do not
/// declare, and the name with it.
///
/// All numbers below `from` must have their names declared: then the number found is no
/// more than the number of parameters, and so the search stays within a `usize`.
pub fn first_free_name(generics: &Generics, marker: &str, from: usize) -> (found: (usize, String))
    requires
        forall|k: nat|
            k < from ==> declares(generics@.params, #[trigger] numbered_name(marker@, k)),
    ensures
        found.0 == first_free(generics@.params, marker@, from as nat),
        found.1@ == numbered_name(marker@, found.0 as nat),
        found.0 <= generics.params.len(),
{
    let ghost params = generics@.params;
    let mut n: usize = from;
    let mut name = numbered_name_text(marker, n);
    proof {
        lemma_declared_range_bounded(params, marker@, 0, n as nat);
    }
    while declares_scope(generics, &name)
        invariant
            params == generics@.params,
            from <= n <= params.len() == generics.params.len(),
            name@ == numbered_name(marker@, n as nat),
            forall|k: nat| k < n ==> declares(params, #[trigger] numbered_name(marker@, k)),
        decreases params.len() - n,
    {
        proof {
            lemma_declared_range_bounded(params, marker@, 0, (n + 1) as nat);
        }
        n = n + 1;
        name = numbered_name_text(marker, n);
    }
    proof {
        lemma_first_free_unique(params, marker@, from as nat, n as nat);
    }
    (n, name)
}

/// The marker that the names of the scopes made for elided places begin with.
pub open spec fn elided_marker() -> Seq<char> {
    "'__"@
}

/// Hands out, for each elided place, a scope with a name that nothing declares yet, and
/// declares it at once.
///
/// The names are `'__0`, `'__1`, ...; a number whose name is taken is passed over. `next`
/// is the number to try first, and `generics` the declaration's generics as they grow.
pub struct ScopeAllocator {
    pub next: usize,
    pub generics: Generics,
}

/// The mathematical value of a [`ScopeAllocator`].
pub struct AllocatorState {
    pub next: nat,
    pub generics: GenericsView,
}

/// The number of the name that the allocator hands out next.
pub open spec fn allocated_number(state: AllocatorState) -> nat {
    first_free(state.generics.params, elided_marker(), state.next)
}

/// The scope that the allocator hands out for the place `position`.
pub open spec fn allocated_scope(state: AllocatorState, position: Position) -> ScopeView {
    ScopeView { name: numbered_name(elided_marker(), allocated_number(state)), position }
}

impl Resolver for ScopeAllocator {
    type State = AllocatorState;

    open spec fn state(&self) -> AllocatorState {
        AllocatorState { next: self.next as nat, generics: self.generics@ }
    }

    /// Every number below `next` has its name declared: it was either found taken or
    /// handed out and declared.
    open spec fn valid(state: AllocatorState) -> bool {
        forall|k: nat|
            k < state.next ==> declares(
                state.generics.params,
                #[trigger] numbered_name(elided_marker(), k),
            )
    }

    open spec fn answer(state: AllocatorState, position: Position) -> Option<ScopeView> {
        Some(allocated_scope(state, position))
    }

    open spec fn successor(state: AllocatorState, position: Position) -> AllocatorState {
        AllocatorState {
            next: allocated_number(state) + 1,
            generics: with_scope_param(state.generics, allocated_scope(state, position)),
        }
    }

    fn resolve(&mut self, position: Position) -> (scope: Option<Scope>) {
        let ghost params = self.generics@.params;
        let (n, name) = first_free_name(&self.generics, "'__", self.next);
        let scope = Scope { name, position };
        introduce_new_generic_lt(&scope, &mut self.generics);
        proof {
            crate::lemma_scope_count_bounded(params);
            assert(self.generics.params@.len() == self.generics.params.len());
            lemma_first_free(params, elided_marker(), self.next as nat);
            assert forall|k: nat| k < n + 1 implies declares(
                self.generics@.params,
                #[trigger] numbered_name(elided_marker(), k),
            ) by {
                lemma_insert_declares(
                    params,
                    scope_count(params) as int,
                    scope_param(scope@),
                    numbered_name(elided_marker(), k),
                );
            }
        }
        self.next = n + 1;
        Some(scope)
    }
}

/// The allocator stays valid from one answer to the next.
pub proof fn lemma_successor_is_valid(state: AllocatorState, position: Position)
    requires
        ScopeAllocator::valid(state),
    ensures
        ScopeAllocator::valid(ScopeAllocator::successor(state, position)),
{
    let params = state.generics.params;
    let after = ScopeAllocator::successor(state, position);
    lemma_first_free(params, elided_marker(), state.next);
    crate::lemma_scope_count_bounded(params);
    assert forall|k: nat| k < after.next implies declares(
        after.generics.params,
        #[trigger] numbered_name(elided_marker(), k),
    ) by {
        lemma_insert_declares(
            params,
            scope_count(params) as int,
            scope_param(allocated_scope(state, position)),
            numbered_name(elided_marker(), k),
        );
    }
}

/// The numbers of the names handed out go up from one answer to the next, and none is below
/// the number that the allocator started from.
pub proof fn lemma_numbers_increase(state: AllocatorState, first: Position, second: Position)
    ensures
        state.next <= allocated_number(state),
        allocated_number(state) < allocated_number(ScopeAllocator::successor(state, first)),
        allocated_scope(state, first).name != allocated_scope(
            ScopeAllocator::successor(state, first),
            second,
        ).name,
{
    let after = ScopeAllocator::successor(state, first);
    lemma_first_free(state.generics.params, elided_marker(), state.next);
    lemma_first_free(after.generics.params, elided_marker(), after.next);
    lemma_numbered_names_differ(elided_marker(), allocated_number(state), allocated_number(after));
}

} // verus!
