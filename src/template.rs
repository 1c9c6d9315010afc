use vstd::prelude::*;

verus! {

/// What a new project holds.
#[derive(Clone, Copy, Debug, PartialEq, Eq, Structural)]
pub enum Kind {
    Operator,
    CustomNode,
    Dataflow,
}

/// What a name is given to.
#[derive(Clone, Copy, Debug, PartialEq, Eq, Structural)]
pub enum NameKind {
    Node,
    Dataflow,
    Operator,
}

/// Why a project is not created.
#[derive(Clone, Copy, Debug, PartialEq, Eq, Structural)]
pub enum CreateError {
    /// Operators are deprecated and no longer created.
    OperatorsDeprecated,
    /// The name holds a separator (`/`, or `-` in an operator name).
    Separator { what: NameKind, separator: char },
    /// The name holds a character outside ASCII.
    NotAscii { what: NameKind },
}

/// The project to lay out once the name was accepted.
#[derive(Clone, Copy, Debug, PartialEq, Eq, Structural)]
pub enum Scaffold {
    CustomNode,
    Dataflow,
}

/// Whether `s` holds `c`.
pub fn contains_char(s: &str, c: char) -> (r: bool)
    ensures
        r == s@.contains(c),
{
    let n = s.unicode_len();
    let mut i: usize = 0;
    while i < n
        invariant
            n == s@.len(),
            i <= n,
            forall|j: int| 0 <= j < i ==> s@[j] != c,
        decreases n - i,
    {
        if s.get_char(i) == c {
            return true;
        }
        i = i + 1;
    }
    false
}

/// Checks the name of a new node or dataflow: no `/`, then ASCII only.
pub fn check_name(what: NameKind, name: &str) -> (r: Result<(), CreateError>)
    ensures
        r == check_name_spec(what, name),
{
    if contains_char(name, '/') {
        Err(CreateError::Separator { what, separator: '/' })
    } else if !name.is_ascii() {
        Err(CreateError::NotAscii { what })
    } else {
        Ok(())
    }
}

/// Checks the name of a new operator: no `/`, no `-`, then ASCII only.
pub fn check_operator_name(name: &str) -> (r: Result<(), CreateError>)
    ensures
        name@.contains('/') ==> r == Err::<(), CreateError>(
            CreateError::Separator { what: NameKind::Operator, separator: '/' },
        ),
        !name@.contains('/') && name@.contains('-') ==> r == Err::<(), CreateError>(
            CreateError::Separator { what: NameKind::Operator, separator: '-' },
        ),
        !name@.contains('/') && !name@.contains('-') && !vstd::string::is_ascii(name) ==> r
            == Err::<(), CreateError>(CreateError::NotAscii { what: NameKind::Operator }),
        !name@.contains('/') && !name@.contains('-') && vstd::string::is_ascii(name) ==> r is Ok,
{
    if contains_char(name, '/') {
        Err(CreateError::Separator { what: NameKind::Operator, separator: '/' })
    } else if contains_char(name, '-') {
        Err(CreateError::Separator { what: NameKind::Operator, separator: '-' })
    } else if !name.is_ascii() {
        Err(CreateError::NotAscii { what: NameKind::Operator })
    } else {
        Ok(())
    }
}

/// Decides what a new project of kind `kind` named `name` is: operators are
/// refused, a node or dataflow name must pass `check_name`.
pub fn create(kind: Kind, name: &str) -> (r: Result<Scaffold, CreateError>)
    ensures
        kind == Kind::Operator ==> r == Err::<Scaffold, CreateError>(CreateError::OperatorsDeprecated),
        kind == Kind::CustomNode ==> r == match check_name_spec(NameKind::Node, name) {
            Ok(()) => Ok(Scaffold::CustomNode),
            Err(e) => Err(e),
        },
        kind == Kind::Dataflow ==> r == match check_name_spec(NameKind::Dataflow, name) {
            Ok(()) => Ok(Scaffold::Dataflow),
            Err(e) => Err(e),
        },
{
    match kind {
        Kind::Operator => Err(CreateError::OperatorsDeprecated),
        Kind::CustomNode => match check_name(NameKind::Node, name) {
            Ok(()) => Ok(Scaffold::CustomNode),
            Err(e) => Err(e),
        },
        Kind::Dataflow => match check_name(NameKind::Dataflow, name) {
            Ok(()) => Ok(Scaffold::Dataflow),
            Err(e) => Err(e),
        },
    }
}

/// The outcome of `check_name`.
pub open spec fn check_name_spec(what: NameKind, name: &str) -> Result<(), CreateError> {
    if name@.contains('/') {
        Err(CreateError::Separator { what, separator: '/' })
    } else if !vstd::string::is_ascii(name) {
        Err(CreateError::NotAscii { what })
    } else {
        Ok(())
    }
}

} // verus!
