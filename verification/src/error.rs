//! Error taxonomy of the library.
//!
//! Every fallible operation returns one of these variants; the boundary
//! layer surfaces the rendered message to outside callers.

use vstd::prelude::*;

verus! {

use vstd::string::StringExecFns;

/// The decimal digit character for `d` in `0 ..= 9`.
pub open spec fn spec_digit(d: int) -> char {
    if d == 0 {
        '0'
    } else if d == 1 {
        '1'
    } else if d == 2 {
        '2'
    } else if d == 3 {
        '3'
    } else if d == 4 {
        '4'
    } else if d == 5 {
        '5'
    } else if d == 6 {
        '6'
    } else if d == 7 {
        '7'
    } else if d == 8 {
        '8'
    } else {
        '9'
    }
}

/// The decimal rendering of a non-negative integer, most significant
/// digit first.
pub open spec fn spec_decimal(n: int) -> Seq<char>
    decreases n,
{
    if n < 10 {
        seq![spec_digit(n)]
    } else {
        spec_decimal(n / 10).push(spec_digit(n % 10))
    }
}

fn digit_str(d: usize) -> (r: &'static str)
    requires
        d < 10,
    ensures
        r@ =~= seq![spec_digit(d as int)],
{
    proof {
        reveal_strlit("0");
        reveal_strlit("1");
        reveal_strlit("2");
        reveal_strlit("3");
        reveal_strlit("4");
        reveal_strlit("5");
        reveal_strlit("6");
        reveal_strlit("7");
        reveal_strlit("8");
        reveal_strlit("9");
    }
    if d == 0 {
        "0"
    } else if d == 1 {
        "1"
    } else if d == 2 {
        "2"
    } else if d == 3 {
        "3"
    } else if d == 4 {
        "4"
    } else if d == 5 {
        "5"
    } else if d == 6 {
        "6"
    } else if d == 7 {
        "7"
    } else if d == 8 {
        "8"
    } else {
        "9"
    }
}

/// Render a non-negative integer in decimal.
pub fn decimal_string(n: usize) -> (r: String)
    ensures
        r@ == spec_decimal(n as int),
    decreases n,
{
    if n < 10 {
        let r = String::from_str(digit_str(n));
        assert(r@ =~= spec_decimal(n as int));
        r
    } else {
        let mut s = decimal_string(n / 10);
        s.append(digit_str(n % 10));
        assert(s@ =~= spec_decimal(n as int));
        s
    }
}

/// Everything that can go wrong in the registry, the geometry boundary and
/// the input pipeline.
#[derive(Clone, Debug)]
pub enum Error {
    /// The registry was used before its one-time initialization.
    NotInitialized,
    /// No polygon is registered under the given id.
    PolygonNotFound(String),
    /// A polygon is already registered under the given id.
    PolygonExists(String),
    /// An update supplied fewer than the three points a polygon needs.
    PointsNotEnough(usize),
    /// A shared cache could not be read or written.
    LockError(String),
    /// The input hook or its thread failed to start; fatal for the session.
    PluginInitializationError(String),
}

impl Error {
    /// The human-readable message that each variant renders to.
    pub open spec fn spec_message(&self) -> Seq<char> {
        match self {
            Error::NotInitialized => "Not Initialized. Call tauri_wherever::init(app_handle) first when setup a tauri app."@,
            Error::PolygonNotFound(id) => "Polygon with id ["@ + id@ + "] not found."@,
            Error::PolygonExists(id) => "Polygon with id ["@ + id@ + "] already exists."@,
            Error::PointsNotEnough(n) => "At least 3 points needed but got "@ + spec_decimal(
                *n as int,
            ) + "."@,
            Error::LockError(s) => "Can not read/write cache. "@ + s@,
            Error::PluginInitializationError(s) => "Failed to initialize plugin. "@ + s@,
        }
    }

    /// Render the error as its message.
    pub fn message(&self) -> (r: String)
        ensures
            r@ == self.spec_message(),
    {
        match self {
            Error::NotInitialized => String::from_str(
                "Not Initialized. Call tauri_wherever::init(app_handle) first when setup a tauri app.",
            ),
            Error::PolygonNotFound(id) => {
                let mut s = String::from_str("Polygon with id [");
                s.append(id.as_str());
                s.append("] not found.");
                s
            },
            Error::PolygonExists(id) => {
                let mut s = String::from_str("Polygon with id [");
                s.append(id.as_str());
                s.append("] already exists.");
                s
            },
            Error::PointsNotEnough(n) => {
                let mut s = String::from_str("At least 3 points needed but got ");
                let d = decimal_string(*n);
                s.append(d.as_str());
                s.append(".");
                s
            },
            Error::LockError(m) => {
                let mut s = String::from_str("Can not read/write cache. ");
                s.append(m.as_str());
                s
            },
            Error::PluginInitializationError(m) => {
                let mut s = String::from_str("Failed to initialize plugin. ");
                s.append(m.as_str());
                s
            },
        }
    }
}

} // verus!
