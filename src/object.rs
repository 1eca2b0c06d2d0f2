use vstd::prelude::*;
use vstd::string::StringExecFns;

verus! {

/// A runtime value.
#[derive(Debug)]
pub enum Object {
    Integer(i64),
    Boolean(bool),
    Null,
    /// A value on its way out of a `return`.
    ReturnValue(Box<Object>),
}

/// The name of a value's type.
pub open spec fn kind_name_of(o: Object) -> Seq<char> {
    match o {
        Object::Integer(_) => "INTEGER"@,
        Object::Boolean(_) => "BOOLEAN"@,
        Object::Null => "NULL"@,
        Object::ReturnValue(_) => "RETURN_VALUE"@,
    }
}

pub open spec fn digit_char(d: nat) -> char {
    if d == 0 {
        '0'
    } else if d == 1 {
        '1'
    } else if d == 2 {
        '2'
    } else if d == 3 {
        '3'
    } else if d == 4 {
        '4'
    } else if d == 5 {
        '5'
    } else if d == 6 {
        '6'
    } else if d == 7 {
        '7'
    } else if d == 8 {
        '8'
    } else {
        '9'
    }
}

/// The decimal digits of `n`, most significant first.
pub open spec fn nat_text(n: nat) -> Seq<char>
    decreases n,
{
    if n < 10 {
        seq![digit_char(n)]
    } else {
        nat_text(n / 10).push(digit_char(n % 10))
    }
}

/// The decimal text of an integer, with a leading `-` when negative.
pub open spec fn int_text(n: int) -> Seq<char> {
    if n < 0 {
        seq!['-'] + nat_text((-n) as nat)
    } else {
        nat_text(n as nat)
    }
}

/// How a value is shown.
pub open spec fn inspect_text(o: Object) -> Seq<char>
    decreases o,
{
    match o {
        Object::Integer(n) => int_text(n as int),
        Object::Boolean(b) => if b {
            "true"@
        } else {
            "false"@
        },
        Object::Null => "null"@,
        Object::ReturnValue(v) => inspect_text(*v),
    }
}

fn digit_to_char(d: u64) -> (c: char)
    requires
        d < 10,
    ensures
        c == digit_char(d as nat),
{
    match d {
        0 => '0',
        1 => '1',
        2 => '2',
        3 => '3',
        4 => '4',
        5 => '5',
        6 => '6',
        7 => '7',
        8 => '8',
        _ => '9',
    }
}

fn push_digits(n: u64, out: &mut String)
    ensures
        final(out)@ == old(out)@ + nat_text(n as nat),
    decreases n,
{
    if n >= 10 {
        push_digits(n / 10, out);
    }
    let c = digit_to_char(n % 10);
    out.push(c);
    if n < 10 {
        assert(nat_text(n as nat) =~= seq![c]);
    }
}

impl Object {
    /// The name of this value's type.
    pub fn object_type(&self) -> (r: String)
        ensures
            r@ == kind_name_of(*self),
    {
        match self {
            Object::Integer(_) => String::from_str("INTEGER"),
            Object::Boolean(_) => String::from_str("BOOLEAN"),
            Object::Null => String::from_str("NULL"),
            Object::ReturnValue(_) => String::from_str("RETURN_VALUE"),
        }
    }

    /// This value as text: the decimal number, `true` or `false`, or `null`.
    pub fn inspect(&self) -> (r: String)
        ensures
            r@ == inspect_text(*self),
        decreases self,
    {
        match self {
            Object::Integer(n) => {
                let mut out = String::new();
                if *n < 0 {
                    out.push('-');
                    let magnitude: u64 = if *n == i64::MIN {
                        9223372036854775808u64
                    } else {
                        (-*n) as u64
                    };
                    push_digits(magnitude, &mut out);
                } else {
                    push_digits(*n as u64, &mut out);
                }
                out
            },
            Object::Boolean(b) => if *b {
                String::from_str("true")
            } else {
                String::from_str("false")
            },
            Object::Null => String::from_str("null"),
            Object::ReturnValue(v) => v.inspect(),
        }
    }
}

} // verus!
