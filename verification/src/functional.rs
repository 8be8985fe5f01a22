//! Formulas that are functions: the same arguments always give the same result.

use vstd::prelude::*;

verus! {

/// A formula of one argument is a function.
pub open spec fn function1<A, R, F: Fn(A) -> R>(f: F) -> bool {
    forall|a: A, r: R, s: R| #[trigger]
        call_ensures(f, (a,), r) && #[trigger] call_ensures(f, (a,), s) ==> r == s
}

/// A formula of two arguments is a function.
pub open spec fn function2<A, B, R, F: Fn(A, B) -> R>(f: F) -> bool {
    forall|a: A, b: B, r: R, s: R| #[trigger]
        call_ensures(f, (a, b), r) && #[trigger] call_ensures(f, (a, b), s) ==> r == s
}

/// A formula of three arguments is a function.
pub open spec fn function3<A, B, C, R, F: Fn(A, B, C) -> R>(f: F) -> bool {
    forall|a: A, b: B, c: C, r: R, s: R| #[trigger]
        call_ensures(f, (a, b, c), r) && #[trigger] call_ensures(f, (a, b, c), s) ==> r == s
}

/// A formula of four arguments is a function.
pub open spec fn function4<A, B, C, D, R, F: Fn(A, B, C, D) -> R>(f: F) -> bool {
    forall|a: A, b: B, c: C, d: D, r: R, s: R| #[trigger]
        call_ensures(f, (a, b, c, d), r) && #[trigger] call_ensures(f, (a, b, c, d), s) ==> r == s
}

/// A formula of five arguments is a function.
pub open spec fn function5<A, B, C, D, E, R, F: Fn(A, B, C, D, E) -> R>(f: F) -> bool {
    forall|a: A, b: B, c: C, d: D, e: E, r: R, s: R| #[trigger]
        call_ensures(f, (a, b, c, d, e), r) && #[trigger] call_ensures(f, (a, b, c, d, e), s)
            ==> r == s
}

/// A formula of six arguments is a function.
pub open spec fn function6<A, B, C, D, E, G, R, F: Fn(A, B, C, D, E, G) -> R>(f: F) -> bool {
    forall|a: A, b: B, c: C, d: D, e: E, g: G, r: R, s: R| #[trigger]
        call_ensures(f, (a, b, c, d, e, g), r) && #[trigger] call_ensures(
            f,
            (a, b, c, d, e, g),
            s,
        ) ==> r == s
}

} // verus!
