//! Getter creation errors: what went wrong when a definition was asked for
//! a getter, with enough detail to print a precise message.
use vstd::prelude::*;

use crate::definition::TypeDef;

verus! {

/// The decimal digit for one value below ten.
pub open spec fn spec_digit(d: nat) -> char {
    if d == 0 {
        '0'
    } else if d == 1 {
        '1'
    } else if d == 2 {
        '2'
    } else if d == 3 {
        '3'
    } else if d == 4 {
        '4'
    } else if d == 5 {
        '5'
    } else if d == 6 {
        '6'
    } else if d == 7 {
        '7'
    } else if d == 8 {
        '8'
    } else {
        '9'
    }
}

/// The decimal rendering of a number, most significant digit first.
pub open spec fn spec_decimal(n: nat) -> Seq<char>
    decreases n,
{
    if n < 10 {
        seq![spec_digit(n)]
    } else {
        spec_decimal(n / 10).push(spec_digit(n % 10))
    }
}

/// One decimal digit as text.
fn digit_str(d: u64) -> (r: String)
    requires
        d < 10,
    ensures
        r@ == seq![spec_digit(d as nat)],
{
    proof {
        reveal_strlit("0");
        reveal_strlit("1");
        reveal_strlit("2");
        reveal_strlit("3");
        reveal_strlit("4");
        reveal_strlit("5");
        reveal_strlit("6");
        reveal_strlit("7");
        reveal_strlit("8");
        reveal_strlit("9");
    }
    let s = if d == 0 {
        "0"
    } else if d == 1 {
        "1"
    } else if d == 2 {
        "2"
    } else if d == 3 {
        "3"
    } else if d == 4 {
        "4"
    } else if d == 5 {
        "5"
    } else if d == 6 {
        "6"
    } else if d == 7 {
        "7"
    } else if d == 8 {
        "8"
    } else {
        "9"
    };
    proof {
        assert(s@ =~= seq![spec_digit(d as nat)]);
    }
    String::from_str(s)
}

/// A number as decimal text.
fn to_decimal(n: u64) -> (r: String)
    ensures
        r@ == spec_decimal(n as nat),
    decreases n,
{
    if n < 10 {
        digit_str(n)
    } else {
        let rest = to_decimal(n / 10);
        let last = digit_str(n % 10);
        let r = rest.concat(last.as_str());
        proof {
            assert(r@ =~= spec_decimal((n / 10) as nat).push(spec_digit((n % 10) as nat)));
        }
        r
    }
}

/// Definition type does not match the requested type.
pub struct DefinitionTypeErr {
    /// Requested type.
    pub requested: TypeDef,
    /// Found definition type.
    pub found: TypeDef,
}

impl DefinitionTypeErr {
    /// A new mismatch record.
    pub fn new(requested: TypeDef, found: TypeDef) -> (r: DefinitionTypeErr)
        ensures
            r.requested == requested,
            r.found == found,
    {
        DefinitionTypeErr { requested, found }
    }

    /// This mismatch as an argument mismatch, once the argument's name is
    /// known.
    pub fn to_arg_err(self, name: &str) -> (r: ArgTypeErr)
        ensures
            r.name@ == name@,
            r.requested == self.requested,
            r.found == self.found,
    {
        ArgTypeErr::new(name, self.requested, self.found)
    }
}

/// An argument definition's type does not match the requested type.
pub struct ArgTypeErr {
    /// Argument definition name.
    pub name: String,
    /// Requested argument type.
    pub requested: TypeDef,
    /// Found definition type.
    pub found: TypeDef,
}

impl ArgTypeErr {
    /// A new mismatch record.
    pub fn new(name: &str, requested: TypeDef, found: TypeDef) -> (r: ArgTypeErr)
        ensures
            r.name@ == name@,
            r.requested == requested,
            r.found == found,
    {
        ArgTypeErr { name: name.to_owned(), requested, found }
    }
}

/// The returned getter's type does not match the expected type.
pub struct GetterTypeErr {
    /// Expected type.
    pub expected: TypeDef,
}

impl GetterTypeErr {
    /// A new mismatch record.
    pub fn new(expected: TypeDef) -> (r: GetterTypeErr)
        ensures
            r.expected == expected,
    {
        GetterTypeErr { expected }
    }
}

/// The getter's argument count does not match the mapped definition count.
pub struct ArgCountMismatchErr {
    /// How many arguments the definition requires.
    pub required: u64,
    /// How many were specified.
    pub specified: u64,
}

impl ArgCountMismatchErr {
    /// A new mismatch record.
    pub fn new(required: u64, specified: u64) -> (r: ArgCountMismatchErr)
        ensures
            r.required == required,
            r.specified == specified,
    {
        ArgCountMismatchErr { required, specified }
    }
}

/// The reasons getter creation can fail.
pub enum GetterErrKind {
    /// There was no definition with the requested name.
    NotFound,
    /// There was no definition for the argument with the requested name.
    ArgNotFound(String),
    /// There was a definition with the requested type, but it returned a
    /// getter of a different type.
    GetterTypeMismatch(GetterTypeErr),
    /// There was a definition, but its type did not match the requested
    /// type.
    DefinitionTypeMismatch(DefinitionTypeErr),
    /// There was an argument definition, but its type did not match the
    /// requested argument type.
    ArgTypeMismatch(ArgTypeErr),
    /// The number of mapped argument definitions was wrong.
    ArgCountMismatch(ArgCountMismatchErr),
}

/// Getter creation error information.
pub struct GetterErr {
    /// The reason for the failure.
    pub kind: GetterErrKind,
    /// The name of the requested getter.
    pub name: String,
}

/// The message `GetterErr::to_string` renders for each kind of failure.
pub open spec fn spec_getter_err_message(kind: GetterErrKind, name: Seq<char>) -> Seq<char> {
    match kind {
        GetterErrKind::NotFound => "Definition \""@ + name + "\" was not found."@,
        GetterErrKind::ArgNotFound(arg) => "Definition \""@ + name + "\" requires \""@ + arg@
            + "\", but it was not found."@,
        GetterErrKind::DefinitionTypeMismatch(e) => "Expected \""@ + name + "\" of \""@
            + e.requested.spec_name() + "\" type, but type \""@ + e.found.spec_name()
            + "\" found."@,
        GetterErrKind::ArgTypeMismatch(e) => "Definition \""@ + name + "\" requested \""@ + e.name@
            + "\" of \""@ + e.requested.spec_name() + "\" type, but type \""@
            + e.found.spec_name() + "\" found."@,
        GetterErrKind::GetterTypeMismatch(e) => "Definition \""@ + name + "\" failed to return \""@
            + e.expected.spec_name() + "\" getter."@,
        GetterErrKind::ArgCountMismatch(e) => "Definition \""@ + name + "\" requires "@
            + spec_decimal(e.required as nat) + " args, but "@ + spec_decimal(e.specified as nat)
            + " specified."@,
    }
}

impl GetterErr {
    /// A new error record.
    pub fn new(kind: GetterErrKind, name: &str) -> (r: GetterErr)
        ensures
            r.kind == kind,
            r.name@ == name@,
    {
        GetterErr { kind, name: name.to_owned() }
    }

    /// Converts a definition error into an argument error, once the parent
    /// definition's name is known: the definition that was not found, or
    /// whose type mismatched, becomes that parent's missing or mismatched
    /// argument.  Other kinds are kept as they are.
    pub fn to_arg_error(self, parent_name: &str) -> (r: GetterErr)
        ensures
            (match self.kind {
                GetterErrKind::NotFound => r.kind matches GetterErrKind::ArgNotFound(a) && a@
                    == self.name@ && r.name@ == parent_name@,
                GetterErrKind::DefinitionTypeMismatch(e) => {
                    &&& r.kind matches GetterErrKind::ArgTypeMismatch(ae)
                    &&& ae.name@ == self.name@
                    &&& ae.requested == e.requested
                    &&& ae.found == e.found
                    &&& r.name@ == parent_name@
                },
                _ => r == self,
            }),
    {
        match self.kind {
            GetterErrKind::NotFound => GetterErr::new(
                GetterErrKind::ArgNotFound(self.name),
                parent_name,
            ),
            GetterErrKind::DefinitionTypeMismatch(type_err) => GetterErr::new(
                GetterErrKind::ArgTypeMismatch(type_err.to_arg_err(self.name.as_str())),
                parent_name,
            ),
            other => GetterErr { kind: other, name: self.name },
        }
    }

    /// Renders the error as a message for output.
    pub fn to_string(&self) -> (r: String)
        ensures
            r@ == spec_getter_err_message(self.kind, self.name@),
    {
        match self.kind {
            GetterErrKind::NotFound => String::from_str("Definition \"").concat(
                self.name.as_str(),
            ).concat("\" was not found."),
            GetterErrKind::ArgNotFound(ref arg_name) => String::from_str("Definition \"").concat(
                self.name.as_str(),
            ).concat("\" requires \"").concat(arg_name.as_str()).concat(
                "\", but it was not found.",
            ),
            GetterErrKind::DefinitionTypeMismatch(ref type_err) => String::from_str(
                "Expected \"",
            ).concat(self.name.as_str()).concat("\" of \"").concat(
                type_err.requested.get_name(),
            ).concat("\" type, but type \"").concat(type_err.found.get_name()).concat(
                "\" found.",
            ),
            GetterErrKind::ArgTypeMismatch(ref type_err) => String::from_str(
                "Definition \"",
            ).concat(self.name.as_str()).concat("\" requested \"").concat(
                type_err.name.as_str(),
            ).concat("\" of \"").concat(type_err.requested.get_name()).concat(
                "\" type, but type \"",
            ).concat(type_err.found.get_name()).concat("\" found."),
            GetterErrKind::GetterTypeMismatch(ref type_err) => String::from_str(
                "Definition \"",
            ).concat(self.name.as_str()).concat("\" failed to return \"").concat(
                type_err.expected.get_name(),
            ).concat("\" getter."),
            GetterErrKind::ArgCountMismatch(ref type_err) => String::from_str(
                "Definition \"",
            ).concat(self.name.as_str()).concat("\" requires ").concat(
                to_decimal(type_err.required).as_str(),
            ).concat(" args, but ").concat(to_decimal(type_err.specified).as_str()).concat(
                " specified.",
            ),
        }
    }
}

} // verus!
