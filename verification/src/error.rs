//! The closed error taxonomy surfaced to clients, and the decimal
//! rendering of record ids used in error detail strings.

use vstd::prelude::*;
use vstd::string::StringExecFns;

verus! {

/// The character for a single decimal digit.
pub open spec fn digit_char(d: int) -> char {
    if d == 0 {
        '0'
    } else if d == 1 {
        '1'
    } else if d == 2 {
        '2'
    } else if d == 3 {
        '3'
    } else if d == 4 {
        '4'
    } else if d == 5 {
        '5'
    } else if d == 6 {
        '6'
    } else if d == 7 {
        '7'
    } else if d == 8 {
        '8'
    } else {
        '9'
    }
}

/// The decimal digits of a non-negative integer, most significant first.
pub open spec fn dec_digits(n: nat) -> Seq<char>
    decreases n,
{
    if n < 10 {
        seq![digit_char(n as int)]
    } else {
        dec_digits(n / 10).push(digit_char((n % 10) as int))
    }
}

/// The decimal rendering of an integer, with a leading `-` when negative.
pub open spec fn dec_of(n: int) -> Seq<char> {
    if n < 0 {
        seq!['-'] + dec_digits((-n) as nat)
    } else {
        dec_digits(n as nat)
    }
}

/// The detail string `"id = <n>"` that error responses carry.
pub open spec fn id_detail(id: int) -> Seq<char> {
    "id = "@ + dec_of(id)
}

fn digit_str(d: u64) -> (r: &'static str)
    requires
        d < 10,
    ensures
        r@ == seq![digit_char(d as int)],
{
    if d == 0 {
        proof {
            reveal_strlit("0");
        }
        assert("0"@ =~= seq![digit_char(0)]);
        "0"
    } else if d == 1 {
        proof {
            reveal_strlit("1");
        }
        assert("1"@ =~= seq![digit_char(1)]);
        "1"
    } else if d == 2 {
        proof {
            reveal_strlit("2");
        }
        assert("2"@ =~= seq![digit_char(2)]);
        "2"
    } else if d == 3 {
        proof {
            reveal_strlit("3");
        }
        assert("3"@ =~= seq![digit_char(3)]);
        "3"
    } else if d == 4 {
        proof {
            reveal_strlit("4");
        }
        assert("4"@ =~= seq![digit_char(4)]);
        "4"
    } else if d == 5 {
        proof {
            reveal_strlit("5");
        }
        assert("5"@ =~= seq![digit_char(5)]);
        "5"
    } else if d == 6 {
        proof {
            reveal_strlit("6");
        }
        assert("6"@ =~= seq![digit_char(6)]);
        "6"
    } else if d == 7 {
        proof {
            reveal_strlit("7");
        }
        assert("7"@ =~= seq![digit_char(7)]);
        "7"
    } else if d == 8 {
        proof {
            reveal_strlit("8");
        }
        assert("8"@ =~= seq![digit_char(8)]);
        "8"
    } else {
        proof {
            reveal_strlit("9");
        }
        assert("9"@ =~= seq![digit_char(9)]);
        "9"
    }
}

fn dec_string(n: u64) -> (r: String)
    ensures
        r@ == dec_digits(n as nat),
    decreases n,
{
    if n < 10 {
        String::from_str(digit_str(n))
    } else {
        let q = dec_string(n / 10);
        let r = q.concat(digit_str(n % 10));
        proof {
            assert(dec_digits((n / 10) as nat).push(digit_char((n % 10) as int)) =~= dec_digits(
                (n / 10) as nat,
            ) + seq![digit_char((n % 10) as int)]);
        }
        r
    }
}

/// The decimal rendering of an `i32`, matching `dec_of`.
pub fn i32_string(n: i32) -> (r: String)
    ensures
        r@ == dec_of(n as int),
{
    if n >= 0 {
        dec_string(n as u64)
    } else {
        let m: i64 = n as i64;
        let a: u64 = (-m) as u64;
        let digits = dec_string(a);
        let r = String::from_str("-").concat(digits.as_str());
        proof {
            reveal_strlit("-");
            assert("-"@ =~= seq!['-']);
        }
        r
    }
}

/// The detail string `"id = <n>"` for a given record id.
pub fn id_detail_string(id: i32) -> (r: String)
    ensures
        r@ == id_detail(id as int),
{
    let prefix = String::from_str("id = ");
    prefix.concat(i32_string(id).as_str())
}

/// Error responses of the config endpoints: a closed taxonomy of
/// exactly three kinds, each carrying a free-text detail.
#[derive(Clone, Debug)]
pub enum ErrorResponse {
    /// The requested id is absent from the store.
    NotFound(String),
    /// A create request's id is already present.
    Conflict(String),
    /// A gated route was called without correct credentials.
    Unauthorized(String),
}

impl ErrorResponse {
    /// A `NotFound` error whose detail names the missing id.
    pub fn not_found(id: i32) -> (r: ErrorResponse)
        ensures
            r matches ErrorResponse::NotFound(d) && d@ == id_detail(id as int),
    {
        ErrorResponse::NotFound(id_detail_string(id))
    }

    /// A `Conflict` error whose detail names the colliding id.
    pub fn conflict(id: i32) -> (r: ErrorResponse)
        ensures
            r matches ErrorResponse::Conflict(d) && d@ == id_detail(id as int),
    {
        ErrorResponse::Conflict(id_detail_string(id))
    }

    /// The HTTP status code each error kind is surfaced as.
    pub fn status_code(&self) -> (s: u16)
        ensures
            self matches ErrorResponse::NotFound(_) ==> s == 404,
            self matches ErrorResponse::Conflict(_) ==> s == 409,
            self matches ErrorResponse::Unauthorized(_) ==> s == 401,
    {
        match self {
            ErrorResponse::NotFound(_) => 404,
            ErrorResponse::Conflict(_) => 409,
            ErrorResponse::Unauthorized(_) => 401,
        }
    }

    /// The detail string the error carries.
    pub fn detail(&self) -> (d: &String)
        ensures
            self matches ErrorResponse::NotFound(x) ==> d == x,
            self matches ErrorResponse::Conflict(x) ==> d == x,
            self matches ErrorResponse::Unauthorized(x) ==> d == x,
    {
        match self {
            ErrorResponse::NotFound(d) => d,
            ErrorResponse::Conflict(d) => d,
            ErrorResponse::Unauthorized(d) => d,
        }
    }
}

} // verus!
