//! Data types of ports, inline constant values and their textual rendering.
use vstd::prelude::*;

verus! {

/// The kind of data a port carries. `Execution` marks control-flow ports, which carry no value.
#[derive(Clone, Copy, Debug, PartialEq, Eq, Structural)]
pub enum MyDataType {
    String,
    Integer,
    Float,
    Boolean,
    Execution,
}

/// The inline constant held by an input port.
///
/// A floating-point constant is held as the decimal text that renders it.
#[derive(Clone, Debug)]
pub enum MyValueType {
    String { value: String },
    Integer { value: i32 },
    Float { text: String },
    Boolean { value: bool },
    Execution { value: String },
}

/// What an inline constant holds, as values.
pub enum ValueView {
    String(Seq<char>),
    Integer(i32),
    Float(Seq<char>),
    Boolean(bool),
    Execution(Seq<char>),
}

impl View for MyValueType {
    type V = ValueView;

    open spec fn view(&self) -> ValueView {
        match self {
            MyValueType::String { value } => ValueView::String(value@),
            MyValueType::Integer { value } => ValueView::Integer(*value),
            MyValueType::Float { text } => ValueView::Float(text@),
            MyValueType::Boolean { value } => ValueView::Boolean(*value),
            MyValueType::Execution { value } => ValueView::Execution(value@),
        }
    }
}

/// The typed default value of a variable or of a function's input or output.
///
/// A floating-point value is held as the decimal text that renders it.
#[derive(Clone, Debug, PartialEq)]
pub enum VariableValue {
    String(String),
    Integer(i64),
    Float(String),
    Boolean(bool),
    Execution,
}

/// The character of a single decimal digit.
pub open spec fn digit_char(d: nat) -> char {
    if d == 0 { '0' }
    else if d == 1 { '1' }
    else if d == 2 { '2' }
    else if d == 3 { '3' }
    else if d == 4 { '4' }
    else if d == 5 { '5' }
    else if d == 6 { '6' }
    else if d == 7 { '7' }
    else if d == 8 { '8' }
    else { '9' }
}

/// Decimal digits of a natural number, most significant first, without leading zeros.
pub open spec fn decimal(n: nat) -> Seq<char>
    decreases n,
{
    if n < 10 {
        seq![digit_char(n)]
    } else {
        decimal(n / 10) + seq![digit_char(n % 10)]
    }
}

/// Decimal text of an integer, with a leading `-` when it is negative.
pub open spec fn int_text(i: int) -> Seq<char> {
    if i < 0 {
        seq!['-'] + decimal((-i) as nat)
    } else {
        decimal(i as nat)
    }
}

pub open spec fn bool_text(b: bool) -> Seq<char> {
    if b { "true"@ } else { "false"@ }
}

pub open spec fn quoted(s: Seq<char>) -> Seq<char> {
    seq!['"'] + s + seq!['"']
}

/// The expression text of an unconnected input: its inline constant as a literal.
pub open spec fn literal(v: MyValueType) -> Seq<char> {
    match v {
        MyValueType::String { value } => quoted(value@),
        MyValueType::Integer { value } => int_text(value as int),
        MyValueType::Float { text } => text@,
        MyValueType::Boolean { value } => bool_text(value),
        MyValueType::Execution { .. } => Seq::empty(),
    }
}

/// The literal that initialises a variable of the given default value.
pub open spec fn variable_literal(v: VariableValue) -> Seq<char> {
    match v {
        VariableValue::String(s) => quoted(s@),
        VariableValue::Integer(i) => int_text(i as int),
        VariableValue::Float(text) => text@,
        VariableValue::Boolean(b) => bool_text(b),
        VariableValue::Execution => Seq::empty(),
    }
}

fn digit_str(d: u64) -> (r: &'static str)
    requires
        d < 10,
    ensures
        r@ == seq![digit_char(d as nat)],
{
    proof {
        reveal_strlit("0");
        reveal_strlit("1");
        reveal_strlit("2");
        reveal_strlit("3");
        reveal_strlit("4");
        reveal_strlit("5");
        reveal_strlit("6");
        reveal_strlit("7");
        reveal_strlit("8");
        reveal_strlit("9");
    }
    if d == 0 { "0" }
    else if d == 1 { "1" }
    else if d == 2 { "2" }
    else if d == 3 { "3" }
    else if d == 4 { "4" }
    else if d == 5 { "5" }
    else if d == 6 { "6" }
    else if d == 7 { "7" }
    else if d == 8 { "8" }
    else { "9" }
}

/// Decimal rendering of an unsigned number.
pub fn render_nat(n: u64) -> (r: String)
    ensures
        r@ == decimal(n as nat),
    decreases n,
{
    if n < 10 {
        String::from_str(digit_str(n))
    } else {
        let mut s = render_nat(n / 10);
        s.append(digit_str(n % 10));
        s
    }
}

/// Decimal rendering of a signed number.
pub fn render_int(i: i64) -> (r: String)
    ensures
        r@ == int_text(i as int),
{
    if i < 0 {
        let m: u64 = if i == i64::MIN { 9223372036854775808u64 } else { (-i) as u64 };
        let mut s = String::from_str("-");
        let d = render_nat(m);
        proof {
            reveal_strlit("-");
        }
        s.append(d.as_str());
        s
    } else {
        render_nat(i as u64)
    }
}

pub fn render_bool(b: bool) -> (r: String)
    ensures
        r@ == bool_text(b),
{
    if b {
        String::from_str("true")
    } else {
        String::from_str("false")
    }
}

pub fn render_quoted(s: &String) -> (r: String)
    ensures
        r@ == quoted(s@),
{
    let mut r = String::from_str("\"");
    r.append(s.as_str());
    r.append("\"");
    proof {
        reveal_strlit("\"");
    }
    r
}

impl Default for MyValueType {
    /// A false boolean.
    fn default() -> (r: MyValueType)
        ensures
            r == (MyValueType::Boolean { value: false }),
    {
        MyValueType::Boolean { value: false }
    }
}

impl MyValueType {
    /// The literal text of this inline constant.
    pub fn render_literal(&self) -> (r: String)
        ensures
            r@ == literal(*self),
    {
        match self {
            MyValueType::String { value } => render_quoted(value),
            MyValueType::Integer { value } => render_int(*value as i64),
            MyValueType::Float { text } => text.clone(),
            MyValueType::Boolean { value } => render_bool(*value),
            MyValueType::Execution { .. } => String::new(),
        }
    }
}

impl VariableValue {
    /// The literal text that initialises a variable holding this value.
    pub fn render_literal(&self) -> (r: String)
        ensures
            r@ == variable_literal(*self),
    {
        match self {
            VariableValue::String(s) => render_quoted(s),
            VariableValue::Integer(i) => render_int(*i),
            VariableValue::Float(text) => text.clone(),
            VariableValue::Boolean(b) => render_bool(*b),
            VariableValue::Execution => String::new(),
        }
    }
}

/// Why a value could not be read as another type: the name of the type it holds.
#[derive(Clone, Copy, Debug, PartialEq, Eq, Structural)]
pub struct InvalidCast {
    pub found: MyDataType,
}

pub open spec fn value_type(v: MyValueType) -> MyDataType {
    match v {
        MyValueType::String { .. } => MyDataType::String,
        MyValueType::Integer { .. } => MyDataType::Integer,
        MyValueType::Float { .. } => MyDataType::Float,
        MyValueType::Boolean { .. } => MyDataType::Boolean,
        MyValueType::Execution { .. } => MyDataType::Execution,
    }
}

impl MyValueType {
    /// The data type of the constant this value holds.
    pub fn data_type(&self) -> (r: MyDataType)
        ensures
            r == value_type(*self),
    {
        match self {
            MyValueType::String { .. } => MyDataType::String,
            MyValueType::Integer { .. } => MyDataType::Integer,
            MyValueType::Float { .. } => MyDataType::Float,
            MyValueType::Boolean { .. } => MyDataType::Boolean,
            MyValueType::Execution { .. } => MyDataType::Execution,
        }
    }

    /// The string held, or an error naming the type held instead.
    pub fn try_to_string(self) -> (r: Result<String, InvalidCast>)
        ensures
            match self {
                MyValueType::String { value } => r matches Ok(s) && s == value,
                _ => r == Err::<String, InvalidCast>(InvalidCast { found: value_type(self) }),
            },
    {
        let found = self.data_type();
        match self {
            MyValueType::String { value } => Ok(value),
            _ => Err(InvalidCast { found }),
        }
    }

    /// The integer held, or an error naming the type held instead.
    pub fn try_to_integer(self) -> (r: Result<i32, InvalidCast>)
        ensures
            match self {
                MyValueType::Integer { value } => r == Ok::<i32, InvalidCast>(value),
                _ => r == Err::<i32, InvalidCast>(InvalidCast { found: value_type(self) }),
            },
    {
        let found = self.data_type();
        match self {
            MyValueType::Integer { value } => Ok(value),
            _ => Err(InvalidCast { found }),
        }
    }

    /// The decimal text of the floating-point number held, or an error naming the type
    /// held instead.
    pub fn try_to_float(self) -> (r: Result<String, InvalidCast>)
        ensures
            match self {
                MyValueType::Float { text } => r matches Ok(s) && s == text,
                _ => r == Err::<String, InvalidCast>(InvalidCast { found: value_type(self) }),
            },
    {
        let found = self.data_type();
        match self {
            MyValueType::Float { text } => Ok(text),
            _ => Err(InvalidCast { found }),
        }
    }

    /// The boolean held, or an error naming the type held instead.
    pub fn try_to_bool(self) -> (r: Result<bool, InvalidCast>)
        ensures
            match self {
                MyValueType::Boolean { value } => r == Ok::<bool, InvalidCast>(value),
                _ => r == Err::<bool, InvalidCast>(InvalidCast { found: value_type(self) }),
            },
    {
        let found = self.data_type();
        match self {
            MyValueType::Boolean { value } => Ok(value),
            _ => Err(InvalidCast { found }),
        }
    }
}

pub open spec fn data_type_label(t: MyDataType) -> Seq<char> {
    match t {
        MyDataType::String => "String"@,
        MyDataType::Integer => "Integer"@,
        MyDataType::Float => "Float"@,
        MyDataType::Boolean => "Boolean"@,
        MyDataType::Execution => "Execution"@,
    }
}

/// An RGB colour.
pub type Rgb = (u8, u8, u8);

impl MyDataType {
    /// The name shown for this type.
    pub fn name(&self) -> (r: &'static str)
        ensures
            r@ == data_type_label(*self),
    {
        match self {
            MyDataType::String => "String",
            MyDataType::Integer => "Integer",
            MyDataType::Float => "Float",
            MyDataType::Boolean => "Boolean",
            MyDataType::Execution => "Execution",
        }
    }

    /// The colour that ports of this type are drawn in.
    pub fn data_type_color(&self) -> (r: Rgb)
        ensures
            r == match *self {
                MyDataType::String => (38u8, 109u8, 211u8),
                MyDataType::Integer => (238u8, 207u8, 255u8),
                MyDataType::Float => (38u8, 211u8, 109u8),
                MyDataType::Boolean => (211u8, 109u8, 38u8),
                MyDataType::Execution => (255u8, 255u8, 255u8),
            },
    {
        match self {
            MyDataType::String => (38, 109, 211),
            MyDataType::Integer => (238, 207, 255),
            MyDataType::Float => (38, 211, 109),
            MyDataType::Boolean => (211, 109, 38),
            MyDataType::Execution => (255, 255, 255),
        }
    }
}

pub open spec fn variable_type(v: VariableValue) -> MyDataType {
    match v {
        VariableValue::String(_) => MyDataType::String,
        VariableValue::Integer(_) => MyDataType::Integer,
        VariableValue::Float(_) => MyDataType::Float,
        VariableValue::Boolean(_) => MyDataType::Boolean,
        VariableValue::Execution => MyDataType::Execution,
    }
}

impl VariableValue {
    /// The name of the type of this value.
    pub fn data_type_label(&self) -> (r: String)
        ensures
            r@ == data_type_label(variable_type(*self)),
    {
        let t = match self {
            VariableValue::String(_) => MyDataType::String,
            VariableValue::Integer(_) => MyDataType::Integer,
            VariableValue::Float(_) => MyDataType::Float,
            VariableValue::Boolean(_) => MyDataType::Boolean,
            VariableValue::Execution => MyDataType::Execution,
        };
        String::from_str(t.name())
    }
}

} // verus!
