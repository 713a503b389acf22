//! Tuples of parameters that are decoded from arguments, one implementation
//! of [`FromArguments`] for each number of parameters.

use vstd::prelude::*;
use crate::command::{decodable_at, decode_argument, decoded_at, FromArguments};
use crate::convert::FromArma;

verus! {

impl FromArguments for () {
    open spec fn arity() -> nat {
        0
    }

    open spec fn failure_position(arguments: Seq<Seq<char>>) -> Option<nat> {
        None
    }

    open spec fn decodes_to(arguments: Seq<Seq<char>>, values: Self) -> bool {
        true
    }

    fn parameters() -> (n: usize) {
        0
    }

    fn decode(argv: &[String]) -> (decoded: Result<Self, libc::c_int>) {
        Ok(())
    }
}

impl<A: FromArma> FromArguments for (A,) {
    open spec fn arity() -> nat {
        1
    }

    open spec fn failure_position(arguments: Seq<Seq<char>>) -> Option<nat> {
        if !decodable_at::<A>(arguments, 0) {
            Some(0nat)
        } else {
            None
        }
    }

    open spec fn decodes_to(arguments: Seq<Seq<char>>, values: Self) -> bool {
        &&& decoded_at::<A>(arguments, 0, values.0)
    }

    fn parameters() -> (n: usize) {
        1
    }

    fn decode(argv: &[String]) -> (decoded: Result<Self, libc::c_int>) {
        let a = match decode_argument::<A>(argv, 0) {
            Ok(value) => value,
            Err(status) => {
                return Err(status);
            },
        };
        Ok((a,))
    }
}

impl<A: FromArma, B: FromArma> FromArguments for (A, B) {
    open spec fn arity() -> nat {
        2
    }

    open spec fn failure_position(arguments: Seq<Seq<char>>) -> Option<nat> {
        if !decodable_at::<A>(arguments, 0) {
            Some(0nat)
        } else if !decodable_at::<B>(arguments, 1) {
            Some(1nat)
        } else {
            None
        }
    }

    open spec fn decodes_to(arguments: Seq<Seq<char>>, values: Self) -> bool {
        &&& decoded_at::<A>(arguments, 0, values.0)
        &&& decoded_at::<B>(arguments, 1, values.1)
    }

    fn parameters() -> (n: usize) {
        2
    }

    fn decode(argv: &[String]) -> (decoded: Result<Self, libc::c_int>) {
        let a = match decode_argument::<A>(argv, 0) {
            Ok(value) => value,
            Err(status) => {
                return Err(status);
            },
        };
        let b = match decode_argument::<B>(argv, 1) {
            Ok(value) => value,
            Err(status) => {
                return Err(status);
            },
        };
        Ok((a, b))
    }
}

impl<A: FromArma, B: FromArma, C: FromArma> FromArguments for (A, B, C) {
    open spec fn arity() -> nat {
        3
    }

    open spec fn failure_position(arguments: Seq<Seq<char>>) -> Option<nat> {
        if !decodable_at::<A>(arguments, 0) {
            Some(0nat)
        } else if !decodable_at::<B>(arguments, 1) {
            Some(1nat)
        } else if !decodable_at::<C>(arguments, 2) {
            Some(2nat)
        } else {
            None
        }
    }

    open spec fn decodes_to(arguments: Seq<Seq<char>>, values: Self) -> bool {
        &&& decoded_at::<A>(arguments, 0, values.0)
        &&& decoded_at::<B>(arguments, 1, values.1)
        &&& decoded_at::<C>(arguments, 2, values.2)
    }

    fn parameters() -> (n: usize) {
        3
    }

    fn decode(argv: &[String]) -> (decoded: Result<Self, libc::c_int>) {
        let a = match decode_argument::<A>(argv, 0) {
            Ok(value) => value,
            Err(status) => {
                return Err(status);
            },
        };
        let b = match decode_argument::<B>(argv, 1) {
            Ok(value) => value,
            Err(status) => {
                return Err(status);
            },
        };
        let c = match decode_argument::<C>(argv, 2) {
            Ok(value) => value,
            Err(status) => {
                return Err(status);
            },
        };
        Ok((a, b, c))
    }
}

impl<A: FromArma, B: FromArma, C: FromArma, D: FromArma> FromArguments for (A, B, C, D) {
    open spec fn arity() -> nat {
        4
    }

    open spec fn failure_position(arguments: Seq<Seq<char>>) -> Option<nat> {
        if !decodable_at::<A>(arguments, 0) {
            Some(0nat)
        } else if !decodable_at::<B>(arguments, 1) {
            Some(1nat)
        } else if !decodable_at::<C>(arguments, 2) {
            Some(2nat)
        } else if !decodable_at::<D>(arguments, 3) {
            Some(3nat)
        } else {
            None
        }
    }

    open spec fn decodes_to(arguments: Seq<Seq<char>>, values: Self) -> bool {
        &&& decoded_at::<A>(arguments, 0, values.0)
        &&& decoded_at::<B>(arguments, 1, values.1)
        &&& decoded_at::<C>(arguments, 2, values.2)
        &&& decoded_at::<D>(arguments, 3, values.3)
    }

    fn parameters() -> (n: usize) {
        4
    }

    fn decode(argv: &[String]) -> (decoded: Result<Self, libc::c_int>) {
        let a = match decode_argument::<A>(argv, 0) {
            Ok(value) => value,
            Err(status) => {
                return Err(status);
            },
        };
        let b = match decode_argument::<B>(argv, 1) {
            Ok(value) => value,
            Err(status) => {
                return Err(status);
            },
        };
        let c = match decode_argument::<C>(argv, 2) {
            Ok(value) => value,
            Err(status) => {
                return Err(status);
            },
        };
        let d = match decode_argument::<D>(argv, 3) {
            Ok(value) => value,
            Err(status) => {
                return Err(status);
            },
        };
        Ok((a, b, c, d))
    }
}

impl<
    A: FromArma,
    B: FromArma,
    C: FromArma,
    D: FromArma,
    E: FromArma,
> FromArguments for (A, B, C, D, E) {
    open spec fn arity() -> nat {
        5
    }

    open spec fn failure_position(arguments: Seq<Seq<char>>) -> Option<nat> {
        if !decodable_at::<A>(arguments, 0) {
            Some(0nat)
        } else if !decodable_at::<B>(arguments, 1) {
            Some(1nat)
        } else if !decodable_at::<C>(arguments, 2) {
            Some(2nat)
        } else if !decodable_at::<D>(arguments, 3) {
            Some(3nat)
        } else if !decodable_at::<E>(arguments, 4) {
            Some(4nat)
        } else {
            None
        }
    }

    open spec fn decodes_to(arguments: Seq<Seq<char>>, values: Self) -> bool {
        &&& decoded_at::<A>(arguments, 0, values.0)
        &&& decoded_at::<B>(arguments, 1, values.1)
        &&& decoded_at::<C>(arguments, 2, values.2)
        &&& decoded_at::<D>(arguments, 3, values.3)
        &&& decoded_at::<E>(arguments, 4, values.4)
    }

    fn parameters() -> (n: usize) {
        5
    }

    fn decode(argv: &[String]) -> (decoded: Result<Self, libc::c_int>) {
        let a = match decode_argument::<A>(argv, 0) {
            Ok(value) => value,
            Err(status) => {
                return Err(status);
            },
        };
        let b = match decode_argument::<B>(argv, 1) {
            Ok(value) => value,
            Err(status) => {
                return Err(status);
            },
        };
        let c = match decode_argument::<C>(argv, 2) {
            Ok(value) => value,
            Err(status) => {
                return Err(status);
            },
        };
        let d = match decode_argument::<D>(argv, 3) {
            Ok(value) => value,
            Err(status) => {
                return Err(status);
            },
        };
        let e = match decode_argument::<E>(argv, 4) {
            Ok(value) => value,
            Err(status) => {
                return Err(status);
            },
        };
        Ok((a, b, c, d, e))
    }
}

impl<
    A: FromArma,
    B: FromArma,
    C: FromArma,
    D: FromArma,
    E: FromArma,
    F: FromArma,
> FromArguments for (A, B, C, D, E, F) {
    open spec fn arity() -> nat {
        6
    }

    open spec fn failure_position(arguments: Seq<Seq<char>>) -> Option<nat> {
        if !decodable_at::<A>(arguments, 0) {
            Some(0nat)
        } else if !decodable_at::<B>(arguments, 1) {
            Some(1nat)
        } else if !decodable_at::<C>(arguments, 2) {
            Some(2nat)
        } else if !decodable_at::<D>(arguments, 3) {
            Some(3nat)
        } else if !decodable_at::<E>(arguments, 4) {
            Some(4nat)
        } else if !decodable_at::<F>(arguments, 5) {
            Some(5nat)
        } else {
            None
        }
    }

    open spec fn decodes_to(arguments: Seq<Seq<char>>, values: Self) -> bool {
        &&& decoded_at::<A>(arguments, 0, values.0)
        &&& decoded_at::<B>(arguments, 1, values.1)
        &&& decoded_at::<C>(arguments, 2, values.2)
        &&& decoded_at::<D>(arguments, 3, values.3)
        &&& decoded_at::<E>(arguments, 4, values.4)
        &&& decoded_at::<F>(arguments, 5, values.5)
    }

    fn parameters() -> (n: usize) {
        6
    }

    fn decode(argv: &[String]) -> (decoded: Result<Self, libc::c_int>) {
        let a = match decode_argument::<A>(argv, 0) {
            Ok(value) => value,
            Err(status) => {
                return Err(status);
            },
        };
        let b = match decode_argument::<B>(argv, 1) {
            Ok(value) => value,
            Err(status) => {
                return Err(status);
            },
        };
        let c = match decode_argument::<C>(argv, 2) {
            Ok(value) => value,
            Err(status) => {
                return Err(status);
            },
        };
        let d = match decode_argument::<D>(argv, 3) {
            Ok(value) => value,
            Err(status) => {
                return Err(status);
            },
        };
        let e = match decode_argument::<E>(argv, 4) {
            Ok(value) => value,
            Err(status) => {
                return Err(status);
            },
        };
        let f = match decode_argument::<F>(argv, 5) {
            Ok(value) => value,
            Err(status) => {
                return Err(status);
            },
        };
        Ok((a, b, c, d, e, f))
    }
}

impl<
    A: FromArma,
    B: FromArma,
    C: FromArma,
    D: FromArma,
    E: FromArma,
    F: FromArma,
    G: FromArma,
> FromArguments for (A, B, C, D, E, F, G) {
    open spec fn arity() -> nat {
        7
    }

    open spec fn failure_position(arguments: Seq<Seq<char>>) -> Option<nat> {
        if !decodable_at::<A>(arguments, 0) {
            Some(0nat)
        } else if !decodable_at::<B>(arguments, 1) {
            Some(1nat)
        } else if !decodable_at::<C>(arguments, 2) {
            Some(2nat)
        } else if !decodable_at::<D>(arguments, 3) {
            Some(3nat)
        } else if !decodable_at::<E>(arguments, 4) {
            Some(4nat)
        } else if !decodable_at::<F>(arguments, 5) {
            Some(5nat)
        } else if !decodable_at::<G>(arguments, 6) {
            Some(6nat)
        } else {
            None
        }
    }

    open spec fn decodes_to(arguments: Seq<Seq<char>>, values: Self) -> bool {
        &&& decoded_at::<A>(arguments, 0, values.0)
        &&& decoded_at::<B>(arguments, 1, values.1)
        &&& decoded_at::<C>(arguments, 2, values.2)
        &&& decoded_at::<D>(arguments, 3, values.3)
        &&& decoded_at::<E>(arguments, 4, values.4)
        &&& decoded_at::<F>(arguments, 5, values.5)
        &&& decoded_at::<G>(arguments, 6, values.6)
    }

    fn parameters() -> (n: usize) {
        7
    }

    fn decode(argv: &[String]) -> (decoded: Result<Self, libc::c_int>) {
        let a = match decode_argument::<A>(argv, 0) {
            Ok(value) => value,
            Err(status) => {
                return Err(status);
            },
        };
        let b = match decode_argument::<B>(argv, 1) {
            Ok(value) => value,
            Err(status) => {
                return Err(status);
            },
        };
        let c = match decode_argument::<C>(argv, 2) {
            Ok(value) => value,
            Err(status) => {
                return Err(status);
            },
        };
        let d = match decode_argument::<D>(argv, 3) {
            Ok(value) => value,
            Err(status) => {
                return Err(status);
            },
        };
        let e = match decode_argument::<E>(argv, 4) {
            Ok(value) => value,
            Err(status) => {
                return Err(status);
            },
        };
        let f = match decode_argument::<F>(argv, 5) {
            Ok(value) => value,
            Err(status) => {
                return Err(status);
            },
        };
        let g = match decode_argument::<G>(argv, 6) {
            Ok(value) => value,
            Err(status) => {
                return Err(status);
            },
        };
        Ok((a, b, c, d, e, f, g))
    }
}

impl<
    A: FromArma,
    B: FromArma,
    C: FromArma,
    D: FromArma,
    E: FromArma,
    F: FromArma,
    G: FromArma,
    H: FromArma,
> FromArguments for (A, B, C, D, E, F, G, H) {
    open spec fn arity() -> nat {
        8
    }

    open spec fn failure_position(arguments: Seq<Seq<char>>) -> Option<nat> {
        if !decodable_at::<A>(arguments, 0) {
            Some(0nat)
        } else if !decodable_at::<B>(arguments, 1) {
            Some(1nat)
        } else if !decodable_at::<C>(arguments, 2) {
            Some(2nat)
        } else if !decodable_at::<D>(arguments, 3) {
            Some(3nat)
        } else if !decodable_at::<E>(arguments, 4) {
            Some(4nat)
        } else if !decodable_at::<F>(arguments, 5) {
            Some(5nat)
        } else if !decodable_at::<G>(arguments, 6) {
            Some(6nat)
        } else if !decodable_at::<H>(arguments, 7) {
            Some(7nat)
        } else {
            None
        }
    }

    open spec fn decodes_to(arguments: Seq<Seq<char>>, values: Self) -> bool {
        &&& decoded_at::<A>(arguments, 0, values.0)
        &&& decoded_at::<B>(arguments, 1, values.1)
        &&& decoded_at::<C>(arguments, 2, values.2)
        &&& decoded_at::<D>(arguments, 3, values.3)
        &&& decoded_at::<E>(arguments, 4, values.4)
        &&& decoded_at::<F>(arguments, 5, values.5)
        &&& decoded_at::<G>(arguments, 6, values.6)
        &&& decoded_at::<H>(arguments, 7, values.7)
    }

    fn parameters() -> (n: usize) {
        8
    }

    fn decode(argv: &[String]) -> (decoded: Result<Self, libc::c_int>) {
        let a = match decode_argument::<A>(argv, 0) {
            Ok(value) => value,
            Err(status) => {
                return Err(status);
            },
        };
        let b = match decode_argument::<B>(argv, 1) {
            Ok(value) => value,
            Err(status) => {
                return Err(status);
            },
        };
        let c = match decode_argument::<C>(argv, 2) {
            Ok(value) => value,
            Err(status) => {
                return Err(status);
            },
        };
        let d = match decode_argument::<D>(argv, 3) {
            Ok(value) => value,
            Err(status) => {
                return Err(status);
            },
        };
        let e = match decode_argument::<E>(argv, 4) {
            Ok(value) => value,
            Err(status) => {
                return Err(status);
            },
        };
        let f = match decode_argument::<F>(argv, 5) {
            Ok(value) => value,
            Err(status) => {
                return Err(status);
            },
        };
        let g = match decode_argument::<G>(argv, 6) {
            Ok(value) => value,
            Err(status) => {
                return Err(status);
            },
        };
        let h = match decode_argument::<H>(argv, 7) {
            Ok(value) => value,
            Err(status) => {
                return Err(status);
            },
        };
        Ok((a, b, c, d, e, f, g, h))
    }
}

impl<
    A: FromArma,
    B: FromArma,
    C: FromArma,
    D: FromArma,
    E: FromArma,
    F: FromArma,
    G: FromArma,
    H: FromArma,
    I: FromArma,
> FromArguments for (A, B, C, D, E, F, G, H, I) {
    open spec fn arity() -> nat {
        9
    }

    open spec fn failure_position(arguments: Seq<Seq<char>>) -> Option<nat> {
        if !decodable_at::<A>(arguments, 0) {
            Some(0nat)
        } else if !decodable_at::<B>(arguments, 1) {
            Some(1nat)
        } else if !decodable_at::<C>(arguments, 2) {
            Some(2nat)
        } else if !decodable_at::<D>(arguments, 3) {
            Some(3nat)
        } else if !decodable_at::<E>(arguments, 4) {
            Some(4nat)
        } else if !decodable_at::<F>(arguments, 5) {
            Some(5nat)
        } else if !decodable_at::<G>(arguments, 6) {
            Some(6nat)
        } else if !decodable_at::<H>(arguments, 7) {
            Some(7nat)
        } else if !decodable_at::<I>(arguments, 8) {
            Some(8nat)
        } else {
            None
        }
    }

    open spec fn decodes_to(arguments: Seq<Seq<char>>, values: Self) -> bool {
        &&& decoded_at::<A>(arguments, 0, values.0)
        &&& decoded_at::<B>(arguments, 1, values.1)
        &&& decoded_at::<C>(arguments, 2, values.2)
        &&& decoded_at::<D>(arguments, 3, values.3)
        &&& decoded_at::<E>(arguments, 4, values.4)
        &&& decoded_at::<F>(arguments, 5, values.5)
        &&& decoded_at::<G>(arguments, 6, values.6)
        &&& decoded_at::<H>(arguments, 7, values.7)
        &&& decoded_at::<I>(arguments, 8, values.8)
    }

    fn parameters() -> (n: usize) {
        9
    }

    fn decode(argv: &[String]) -> (decoded: Result<Self, libc::c_int>) {
        let a = match decode_argument::<A>(argv, 0) {
            Ok(value) => value,
            Err(status) => {
                return Err(status);
            },
        };
        let b = match decode_argument::<B>(argv, 1) {
            Ok(value) => value,
            Err(status) => {
                return Err(status);
            },
        };
        let c = match decode_argument::<C>(argv, 2) {
            Ok(value) => value,
            Err(status) => {
                return Err(status);
            },
        };
        let d = match decode_argument::<D>(argv, 3) {
            Ok(value) => value,
            Err(status) => {
                return Err(status);
            },
        };
        let e = match decode_argument::<E>(argv, 4) {
            Ok(value) => value,
            Err(status) => {
                return Err(status);
            },
        };
        let f = match decode_argument::<F>(argv, 5) {
            Ok(value) => value,
            Err(status) => {
                return Err(status);
            },
        };
        let g = match decode_argument::<G>(argv, 6) {
            Ok(value) => value,
            Err(status) => {
                return Err(status);
            },
        };
        let h = match decode_argument::<H>(argv, 7) {
            Ok(value) => value,
            Err(status) => {
                return Err(status);
            },
        };
        let i = match decode_argument::<I>(argv, 8) {
            Ok(value) => value,
            Err(status) => {
                return Err(status);
            },
        };
        Ok((a, b, c, d, e, f, g, h, i))
    }
}

impl<
    A: FromArma,
    B: FromArma,
    C: FromArma,
    D: FromArma,
    E: FromArma,
    F: FromArma,
    G: FromArma,
    H: FromArma,
    I: FromArma,
    J: FromArma,
> FromArguments for (A, B, C, D, E, F, G, H, I, J) {
    open spec fn arity() -> nat {
        10
    }

    open spec fn failure_position(arguments: Seq<Seq<char>>) -> Option<nat> {
        if !decodable_at::<A>(arguments, 0) {
            Some(0nat)
        } else if !decodable_at::<B>(arguments, 1) {
            Some(1nat)
        } else if !decodable_at::<C>(arguments, 2) {
            Some(2nat)
        } else if !decodable_at::<D>(arguments, 3) {
            Some(3nat)
        } else if !decodable_at::<E>(arguments, 4) {
            Some(4nat)
        } else if !decodable_at::<F>(arguments, 5) {
            Some(5nat)
        } else if !decodable_at::<G>(arguments, 6) {
            Some(6nat)
        } else if !decodable_at::<H>(arguments, 7) {
            Some(7nat)
        } else if !decodable_at::<I>(arguments, 8) {
            Some(8nat)
        } else if !decodable_at::<J>(arguments, 9) {
            Some(9nat)
        } else {
            None
        }
    }

    open spec fn decodes_to(arguments: Seq<Seq<char>>, values: Self) -> bool {
        &&& decoded_at::<A>(arguments, 0, values.0)
        &&& decoded_at::<B>(arguments, 1, values.1)
        &&& decoded_at::<C>(arguments, 2, values.2)
        &&& decoded_at::<D>(arguments, 3, values.3)
        &&& decoded_at::<E>(arguments, 4, values.4)
        &&& decoded_at::<F>(arguments, 5, values.5)
        &&& decoded_at::<G>(arguments, 6, values.6)
        &&& decoded_at::<H>(arguments, 7, values.7)
        &&& decoded_at::<I>(arguments, 8, values.8)
        &&& decoded_at::<J>(arguments, 9, values.9)
    }

    fn parameters() -> (n: usize) {
        10
    }

    fn decode(argv: &[String]) -> (decoded: Result<Self, libc::c_int>) {
        let a = match decode_argument::<A>(argv, 0) {
            Ok(value) => value,
            Err(status) => {
                return Err(status);
            },
        };
        let b = match decode_argument::<B>(argv, 1) {
            Ok(value) => value,
            Err(status) => {
                return Err(status);
            },
        };
        let c = match decode_argument::<C>(argv, 2) {
            Ok(value) => value,
            Err(status) => {
                return Err(status);
            },
        };
        let d = match decode_argument::<D>(argv, 3) {
            Ok(value) => value,
            Err(status) => {
                return Err(status);
            },
        };
        let e = match decode_argument::<E>(argv, 4) {
            Ok(value) => value,
            Err(status) => {
                return Err(status);
            },
        };
        let f = match decode_argument::<F>(argv, 5) {
            Ok(value) => value,
            Err(status) => {
                return Err(status);
            },
        };
        let g = match decode_argument::<G>(argv, 6) {
            Ok(value) => value,
            Err(status) => {
                return Err(status);
            },
        };
        let h = match decode_argument::<H>(argv, 7) {
            Ok(value) => value,
            Err(status) => {
                return Err(status);
            },
        };
        let i = match decode_argument::<I>(argv, 8) {
            Ok(value) => value,
            Err(status) => {
                return Err(status);
            },
        };
        let j = match decode_argument::<J>(argv, 9) {
            Ok(value) => value,
            Err(status) => {
                return Err(status);
            },
        };
        Ok((a, b, c, d, e, f, g, h, i, j))
    }
}

impl<
    A: FromArma,
    B: FromArma,
    C: FromArma,
    D: FromArma,
    E: FromArma,
    F: FromArma,
    G: FromArma,
    H: FromArma,
    I: FromArma,
    J: FromArma,
    K: FromArma,
> FromArguments for (A, B, C, D, E, F, G, H, I, J, K) {
    open spec fn arity() -> nat {
        11
    }

    open spec fn failure_position(arguments: Seq<Seq<char>>) -> Option<nat> {
        if !decodable_at::<A>(arguments, 0) {
            Some(0nat)
        } else if !decodable_at::<B>(arguments, 1) {
            Some(1nat)
        } else if !decodable_at::<C>(arguments, 2) {
            Some(2nat)
        } else if !decodable_at::<D>(arguments, 3) {
            Some(3nat)
        } else if !decodable_at::<E>(arguments, 4) {
            Some(4nat)
        } else if !decodable_at::<F>(arguments, 5) {
            Some(5nat)
        } else if !decodable_at::<G>(arguments, 6) {
            Some(6nat)
        } else if !decodable_at::<H>(arguments, 7) {
            Some(7nat)
        } else if !decodable_at::<I>(arguments, 8) {
            Some(8nat)
        } else if !decodable_at::<J>(arguments, 9) {
            Some(9nat)
        } else if !decodable_at::<K>(arguments, 10) {
            Some(10nat)
        } else {
            None
        }
    }

    open spec fn decodes_to(arguments: Seq<Seq<char>>, values: Self) -> bool {
        &&& decoded_at::<A>(arguments, 0, values.0)
        &&& decoded_at::<B>(arguments, 1, values.1)
        &&& decoded_at::<C>(arguments, 2, values.2)
        &&& decoded_at::<D>(arguments, 3, values.3)
        &&& decoded_at::<E>(arguments, 4, values.4)
        &&& decoded_at::<F>(arguments, 5, values.5)
        &&& decoded_at::<G>(arguments, 6, values.6)
        &&& decoded_at::<H>(arguments, 7, values.7)
        &&& decoded_at::<I>(arguments, 8, values.8)
        &&& decoded_at::<J>(arguments, 9, values.9)
        &&& decoded_at::<K>(arguments, 10, values.10)
    }

    fn parameters() -> (n: usize) {
        11
    }

    fn decode(argv: &[String]) -> (decoded: Result<Self, libc::c_int>) {
        let a = match decode_argument::<A>(argv, 0) {
            Ok(value) => value,
            Err(status) => {
                return Err(status);
            },
        };
        let b = match decode_argument::<B>(argv, 1) {
            Ok(value) => value,
            Err(status) => {
                return Err(status);
            },
        };
        let c = match decode_argument::<C>(argv, 2) {
            Ok(value) => value,
            Err(status) => {
                return Err(status);
            },
        };
        let d = match decode_argument::<D>(argv, 3) {
            Ok(value) => value,
            Err(status) => {
                return Err(status);
            },
        };
        let e = match decode_argument::<E>(argv, 4) {
            Ok(value) => value,
            Err(status) => {
                return Err(status);
            },
        };
        let f = match decode_argument::<F>(argv, 5) {
            Ok(value) => value,
            Err(status) => {
                return Err(status);
            },
        };
        let g = match decode_argument::<G>(argv, 6) {
            Ok(value) => value,
            Err(status) => {
                return Err(status);
            },
        };
        let h = match decode_argument::<H>(argv, 7) {
            Ok(value) => value,
            Err(status) => {
                return Err(status);
            },
        };
        let i = match decode_argument::<I>(argv, 8) {
            Ok(value) => value,
            Err(status) => {
                return Err(status);
            },
        };
        let j = match decode_argument::<J>(argv, 9) {
            Ok(value) => value,
            Err(status) => {
                return Err(status);
            },
        };
        let k = match decode_argument::<K>(argv, 10) {
            Ok(value) => value,
            Err(status) => {
                return Err(status);
            },
        };
        Ok((a, b, c, d, e, f, g, h, i, j, k))
    }
}

impl<
    A: FromArma,
    B: FromArma,
    C: FromArma,
    D: FromArma,
    E: FromArma,
    F: FromArma,
    G: FromArma,
    H: FromArma,
    I: FromArma,
    J: FromArma,
    K: FromArma,
    L: FromArma,
> FromArguments for (A, B, C, D, E, F, G, H, I, J, K, L) {
    open spec fn arity() -> nat {
        12
    }

    open spec fn failure_position(arguments: Seq<Seq<char>>) -> Option<nat> {
        if !decodable_at::<A>(arguments, 0) {
            Some(0nat)
        } else if !decodable_at::<B>(arguments, 1) {
            Some(1nat)
        } else if !decodable_at::<C>(arguments, 2) {
            Some(2nat)
        } else if !decodable_at::<D>(arguments, 3) {
            Some(3nat)
        } else if !decodable_at::<E>(arguments, 4) {
            Some(4nat)
        } else if !decodable_at::<F>(arguments, 5) {
            Some(5nat)
        } else if !decodable_at::<G>(arguments, 6) {
            Some(6nat)
        } else if !decodable_at::<H>(arguments, 7) {
            Some(7nat)
        } else if !decodable_at::<I>(arguments, 8) {
            Some(8nat)
        } else if !decodable_at::<J>(arguments, 9) {
            Some(9nat)
        } else if !decodable_at::<K>(arguments, 10) {
            Some(10nat)
        } else if !decodable_at::<L>(arguments, 11) {
            Some(11nat)
        } else {
            None
        }
    }

    open spec fn decodes_to(arguments: Seq<Seq<char>>, values: Self) -> bool {
        &&& decoded_at::<A>(arguments, 0, values.0)
        &&& decoded_at::<B>(arguments, 1, values.1)
        &&& decoded_at::<C>(arguments, 2, values.2)
        &&& decoded_at::<D>(arguments, 3, values.3)
        &&& decoded_at::<E>(arguments, 4, values.4)
        &&& decoded_at::<F>(arguments, 5, values.5)
        &&& decoded_at::<G>(arguments, 6, values.6)
        &&& decoded_at::<H>(arguments, 7, values.7)
        &&& decoded_at::<I>(arguments, 8, values.8)
        &&& decoded_at::<J>(arguments, 9, values.9)
        &&& decoded_at::<K>(arguments, 10, values.10)
        &&& decoded_at::<L>(arguments, 11, values.11)
    }

    fn parameters() -> (n: usize) {
        12
    }

    fn decode(argv: &[String]) -> (decoded: Result<Self, libc::c_int>) {
        let a = match decode_argument::<A>(argv, 0) {
            Ok(value) => value,
            Err(status) => {
                return Err(status);
            },
        };
        let b = match decode_argument::<B>(argv, 1) {
            Ok(value) => value,
            Err(status) => {
                return Err(status);
            },
        };
        let c = match decode_argument::<C>(argv, 2) {
            Ok(value) => value,
            Err(status) => {
                return Err(status);
            },
        };
        let d = match decode_argument::<D>(argv, 3) {
            Ok(value) => value,
            Err(status) => {
                return Err(status);
            },
        };
        let e = match decode_argument::<E>(argv, 4) {
            Ok(value) => value,
            Err(status) => {
                return Err(status);
            },
        };
        let f = match decode_argument::<F>(argv, 5) {
            Ok(value) => value,
            Err(status) => {
                return Err(status);
            },
        };
        let g = match decode_argument::<G>(argv, 6) {
            Ok(value) => value,
            Err(status) => {
                return Err(status);
            },
        };
        let h = match decode_argument::<H>(argv, 7) {
            Ok(value) => value,
            Err(status) => {
                return Err(status);
            },
        };
        let i = match decode_argument::<I>(argv, 8) {
            Ok(value) => value,
            Err(status) => {
                return Err(status);
            },
        };
        let j = match decode_argument::<J>(argv, 9) {
            Ok(value) => value,
            Err(status) => {
                return Err(status);
            },
        };
        let k = match decode_argument::<K>(argv, 10) {
            Ok(value) => value,
            Err(status) => {
                return Err(status);
            },
        };
        let l = match decode_argument::<L>(argv, 11) {
            Ok(value) => value,
            Err(status) => {
                return Err(status);
            },
        };
        Ok((a, b, c, d, e, f, g, h, i, j, k, l))
    }
}

} // verus!
