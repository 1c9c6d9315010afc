use vstd::prelude::*;

verus! {

/// How an input of a node or operator is fed.
#[derive(Debug)]
pub enum InputMapping {
    /// A timer that ticks at a fixed interval.
    Timer { interval_millis: u64 },
    /// The output `output` of the node `source`; for a runtime node
    /// `output` reads `<operator>/<output>`.
    User { source: String, output: String },
}

/// A named input and where it comes from.
#[derive(Debug)]
pub struct InputEntry {
    pub id: String,
    pub mapping: InputMapping,
}

/// A node that runs an executable or a script of its own.
#[derive(Debug)]
pub struct CustomNode {
    pub source: String,
    /// Whether `source` resolves to an existing file from the working directory.
    pub source_found: bool,
    pub inputs: Vec<InputEntry>,
    pub outputs: Vec<String>,
}

/// Where the code of an operator comes from.
#[derive(Debug)]
pub enum OperatorSource {
    SharedLibrary(String),
    Python(String),
    Wasm(String),
}

#[derive(Debug)]
pub struct OperatorDefinition {
    pub id: String,
    pub source: OperatorSource,
    /// Whether the source resolves to an existing file from the working
    /// directory (for a shared library, under the platform's library name).
    pub source_found: bool,
    pub inputs: Vec<InputEntry>,
    pub outputs: Vec<String>,
}

/// A node that hosts operators in the runtime.
#[derive(Debug)]
pub struct RuntimeNode {
    pub operators: Vec<OperatorDefinition>,
}

#[derive(Debug)]
pub enum CoreNodeKind {
    Custom(CustomNode),
    Runtime(RuntimeNode),
}

/// A node of a dataflow after aliases were resolved and defaults set.
#[derive(Debug)]
pub struct ResolvedNode {
    pub id: String,
    /// The machine the node is deployed on.
    pub machine: String,
    pub kind: CoreNodeKind,
}

/// The kind of thing whose source path is checked.
#[derive(Clone, Copy, Debug, PartialEq, Eq, Structural)]
pub enum SourceKind {
    Node,
    SharedLibrary,
    Python,
    Wasm,
}

/// Why a dataflow was rejected.
#[derive(Debug)]
pub enum CheckError {
    /// A local source path does not exist.
    NotFound { kind: SourceKind, path: String },
    /// A node or operator of a distributed dataflow has a relative path.
    RelativeRemotePath { kind: SourceKind, owner: String },
    /// An input names a source node that does not exist.
    UnknownSourceNode { source: String, input: String },
    /// An input names an operator that its source node does not have.
    UnknownSourceOperator { source: String, operator: String, input: String },
    /// An input names an output that its source does not have.
    UnknownOutput { source: String, output: String, input: String },
}

/// Source of a node that is a shell command.
pub const SHELL_SOURCE: &'static str = "shell";

/// Source of a node that is started by the user, not by the daemon.
pub const DYNAMIC_SOURCE: &'static str = "dynamic";

/// `s` holds `//` after a `:`.
pub open spec fn spec_is_url(s: Seq<char>) -> bool {
    exists|i: int| 0 <= i && i + 3 <= s.len() && #[trigger] s.subrange(i, i + 3) == "://"@
}

/// An absolute path starts at the root.
pub open spec fn spec_is_absolute(s: Seq<char>) -> bool {
    s.len() > 0 && s[0] == '/'
}

/// `v` holds a string equal to `s`.
pub open spec fn contains_string(v: Seq<String>, s: Seq<char>) -> bool {
    exists|k: int| 0 <= k < v.len() && (#[trigger] v[k])@ == s
}

/// `i` is the first index of a node named `id`.
pub open spec fn is_first_node(nodes: Seq<ResolvedNode>, id: Seq<char>, i: int) -> bool {
    &&& 0 <= i < nodes.len()
    &&& nodes[i].id@ == id
    &&& forall|j: int| 0 <= j < i ==> (#[trigger] nodes[j]).id@ != id
}

/// `i` is the first index of an operator named `id`.
pub open spec fn is_first_operator(ops: Seq<OperatorDefinition>, id: Seq<char>, i: int) -> bool {
    &&& 0 <= i < ops.len()
    &&& ops[i].id@ == id
    &&& forall|j: int| 0 <= j < i ==> (#[trigger] ops[j]).id@ != id
}

pub open spec fn has_node(nodes: Seq<ResolvedNode>, id: Seq<char>) -> bool {
    exists|i: int| 0 <= i < nodes.len() && (#[trigger] nodes[i]).id@ == id
}

pub open spec fn has_operator(ops: Seq<OperatorDefinition>, id: Seq<char>) -> bool {
    exists|i: int| 0 <= i < ops.len() && (#[trigger] ops[i]).id@ == id
}

/// `s` split at its first `/`, or two empty strings if it has none.
pub open spec fn spec_split_slash(s: Seq<char>) -> (Seq<char>, Seq<char>) {
    if exists|p: int| 0 <= p < s.len() && s[p] == '/' {
        let p = choose|p: int| 0 <= p < s.len() && s[p] == '/' && forall|q: int| 0 <= q < p ==> s[q] != '/';
        (s.subrange(0, p), s.subrange(p + 1, s.len() as int))
    } else {
        (Seq::empty(), Seq::empty())
    }
}

/// Whether the source `output` of a node of kind `kind` exists.
pub open spec fn output_exists(kind: CoreNodeKind, output: Seq<char>) -> bool {
    match kind {
        CoreNodeKind::Custom(c) => contains_string(c.outputs@, output),
        CoreNodeKind::Runtime(rt) => {
            let (op, out) = spec_split_slash(output);
            exists|k: int|
                is_first_operator(rt.operators@, op, k) && contains_string(
                    (#[trigger] rt.operators@[k]).outputs@,
                    out,
                )
        },
    }
}

/// An input is fed by a timer or by an output that exists.
pub open spec fn input_ok(mapping: InputMapping, nodes: Seq<ResolvedNode>) -> bool {
    match mapping {
        InputMapping::Timer { .. } => true,
        InputMapping::User { source, output } => exists|i: int|
            is_first_node(nodes, source@, i) && output_exists((#[trigger] nodes[i]).kind, output@),
    }
}

pub open spec fn inputs_ok(inputs: Seq<InputEntry>, nodes: Seq<ResolvedNode>) -> bool {
    forall|e: int| 0 <= e < inputs.len() ==> input_ok((#[trigger] inputs[e]).mapping, nodes)
}

/// Every input of node `n` is fed by something that exists.
pub open spec fn node_inputs_ok(n: ResolvedNode, nodes: Seq<ResolvedNode>) -> bool {
    match n.kind {
        CoreNodeKind::Custom(c) => inputs_ok(c.inputs@, nodes),
        CoreNodeKind::Runtime(rt) => forall|k: int|
            0 <= k < rt.operators@.len() ==> inputs_ok((#[trigger] rt.operators@[k]).inputs@, nodes),
    }
}

/// All nodes are deployed on one machine.
pub open spec fn spec_is_local(nodes: Seq<ResolvedNode>) -> bool {
    forall|i: int, j: int|
        0 <= i < nodes.len() && 0 <= j < nodes.len() ==> (#[trigger] nodes[i]).machine@ == (
        #[trigger] nodes[j]).machine@
}

/// A URL is not checked; a local path must exist; a remote one must be absolute.
pub open spec fn path_ok(path: Seq<char>, found: bool, is_local: bool) -> bool {
    spec_is_url(path) || if is_local {
        found
    } else {
        spec_is_absolute(path)
    }
}

pub open spec fn operator_path(source: OperatorSource) -> Seq<char> {
    match source {
        OperatorSource::SharedLibrary(p) => p@,
        OperatorSource::Python(p) => p@,
        OperatorSource::Wasm(p) => p@,
    }
}

pub open spec fn operator_path_ok(op: OperatorDefinition, is_local: bool) -> bool {
    path_ok(operator_path(op.source), op.source_found, is_local)
}

/// The sources of node `n` can be found.
pub open spec fn node_paths_ok(n: ResolvedNode, is_local: bool) -> bool {
    match n.kind {
        CoreNodeKind::Custom(c) => c.source@ == SHELL_SOURCE@ || c.source@ == DYNAMIC_SOURCE@
            || path_ok(c.source@, c.source_found, is_local),
        CoreNodeKind::Runtime(rt) => forall|k: int|
            0 <= k < rt.operators@.len() ==> operator_path_ok(
                #[trigger] rt.operators@[k],
                is_local,
            ),
    }
}

pub open spec fn node_has_python(n: ResolvedNode) -> bool {
    match n.kind {
        CoreNodeKind::Custom(_) => false,
        CoreNodeKind::Runtime(rt) => exists|k: int|
            0 <= k < rt.operators@.len() && (#[trigger] rt.operators@[k]).source is Python,
    }
}

pub open spec fn is_path_error(e: CheckError) -> bool {
    e is NotFound || e is RelativeRemotePath
}

/// `e` is the error for an input named `input_id` that is fed by `mapping`
/// and is not valid: the source node is missing, or else the operator of a
/// runtime node is missing, or else the output is.
pub open spec fn input_error(
    mapping: InputMapping,
    nodes: Seq<ResolvedNode>,
    input_id: Seq<char>,
    e: CheckError,
) -> bool {
    match mapping {
        InputMapping::Timer { .. } => false,
        InputMapping::User { source, output } => if !has_node(nodes, source@) {
            e matches CheckError::UnknownSourceNode { source: s, input } && s@ == source@ && input@
                == input_id
        } else {
            exists|i: int|
                is_first_node(nodes, source@, i) && match (#[trigger] nodes[i]).kind {
                    CoreNodeKind::Custom(_) => e matches CheckError::UnknownOutput {
                        source: s,
                        output: o,
                        input,
                    } && s@ == source@ && o@ == output@ && input@ == input_id,
                    CoreNodeKind::Runtime(rt) => {
                        let (op, out) = spec_split_slash(output@);
                        if !has_operator(rt.operators@, op) {
                            e matches CheckError::UnknownSourceOperator { source: s, operator, input }
                                && s@ == source@ && operator@ == op && input@ == input_id
                        } else {
                            e matches CheckError::UnknownOutput { source: s, output: o, input } && s@
                                == source@ && o@ == output@ && input@ == input_id
                        }
                    },
                }
        },
    }
}

/// The error for a source path that fails `path_ok`.
pub open spec fn path_error(kind: SourceKind, path: String, owner: String, is_local: bool) -> CheckError {
    if is_local {
        CheckError::NotFound { kind, path }
    } else {
        CheckError::RelativeRemotePath { kind, owner }
    }
}

pub open spec fn operator_kind(source: OperatorSource) -> SourceKind {
    match source {
        OperatorSource::SharedLibrary(_) => SourceKind::SharedLibrary,
        OperatorSource::Python(_) => SourceKind::Python,
        OperatorSource::Wasm(_) => SourceKind::Wasm,
    }
}

pub open spec fn operator_path_string(source: OperatorSource) -> String {
    match source {
        OperatorSource::SharedLibrary(p) => p,
        OperatorSource::Python(p) => p,
        OperatorSource::Wasm(p) => p,
    }
}

/// `e` is the error for the first source of node `n` that cannot be found.
pub open spec fn node_path_error(n: ResolvedNode, is_local: bool, e: CheckError) -> bool {
    match n.kind {
        CoreNodeKind::Custom(c) => e == path_error(SourceKind::Node, c.source, n.id, is_local),
        CoreNodeKind::Runtime(rt) => exists|k: int|
            0 <= k < rt.operators@.len() && (forall|j: int|
                0 <= j < k ==> operator_path_ok(#[trigger] rt.operators@[j], is_local))
                && !operator_path_ok(#[trigger] rt.operators@[k], is_local) && e == path_error(
                operator_kind(rt.operators@[k].source),
                operator_path_string(rt.operators@[k].source),
                rt.operators@[k].id,
                is_local,
            ),
    }
}

/// `e` is the error for the first invalid input of `inputs`, whose names are
/// qualified by `prefix`.
pub open spec fn inputs_error(
    inputs: Seq<InputEntry>,
    nodes: Seq<ResolvedNode>,
    prefix: Seq<char>,
    e: CheckError,
) -> bool {
    exists|i: int|
        0 <= i < inputs.len() && (forall|j: int|
            0 <= j < i ==> input_ok((#[trigger] inputs[j]).mapping, nodes)) && input_error(
            (#[trigger] inputs[i]).mapping,
            nodes,
            prefix + inputs[i].id@,
            e,
        )
}

/// `e` is the error for the first invalid input of node `n`: an input `x` of
/// a custom node `n` is named `n/x`, one of operator `o` in it `o/n/x`.
pub open spec fn node_inputs_error(n: ResolvedNode, nodes: Seq<ResolvedNode>, e: CheckError) -> bool {
    match n.kind {
        CoreNodeKind::Custom(c) => inputs_error(c.inputs@, nodes, n.id@ + "/"@, e),
        CoreNodeKind::Runtime(rt) => exists|k: int|
            0 <= k < rt.operators@.len() && (forall|j: int|
                0 <= j < k ==> inputs_ok((#[trigger] rt.operators@[j]).inputs@, nodes))
                && inputs_error(
                (#[trigger] rt.operators@[k]).inputs@,
                nodes,
                rt.operators@[k].id@ + "/"@ + n.id@ + "/"@,
                e,
            ),
    }
}

/// Whether a source names a URL rather than a path.
pub fn source_is_url(s: &str) -> (r: bool)
    ensures
        r == spec_is_url(s@),
{
    proof {
        reveal_strlit("://");
    }
    let n = s.unicode_len();
    let mut i: usize = 0;
    while i < n && n - i >= 3
        invariant
            n == s@.len(),
            i <= n,
            forall|j: int| 0 <= j < i && j + 3 <= n ==> #[trigger] s@.subrange(j, j + 3) != "://"@,
        decreases n - i,
    {
        proof {
            reveal_strlit("://");
        }
        let a = s.get_char(i);
        let b = s.get_char(i + 1);
        let c = s.get_char(i + 2);
        if a == ':' && b == '/' && c == '/' {
            assert(s@.subrange(i as int, i + 3) =~= "://"@);
            return true;
        }
        assert(s@.subrange(i as int, i + 3)[0] == a);
        assert(s@.subrange(i as int, i + 3)[1] == b);
        assert(s@.subrange(i as int, i + 3)[2] == c);
        assert(s@.subrange(i as int, i + 3) != "://"@) by {
            if s@.subrange(i as int, i + 3) == "://"@ {
                assert("://"@[0] == ':' && "://"@[1] == '/' && "://"@[2] == '/');
            }
        }
        i = i + 1;
    }
    false
}

/// Whether a path is absolute.
pub fn is_absolute_path(s: &str) -> (r: bool)
    ensures
        r == spec_is_absolute(s@),
{
    s.unicode_len() > 0 && s.get_char(0) == '/'
}

/// Whether `v` holds a string equal to `s`.
fn contains(v: &Vec<String>, s: &String) -> (r: bool)
    ensures
        r == contains_string(v@, s@),
{
    let mut k: usize = 0;
    while k < v.len()
        invariant
            k <= v@.len(),
            forall|j: int| 0 <= j < k ==> (#[trigger] v@[j])@ != s@,
        decreases v.len() - k,
    {
        if v[k] == *s {
            return true;
        }
        k = k + 1;
    }
    false
}

/// The index of the first node named `id`.
fn find_node(nodes: &Vec<ResolvedNode>, id: &String) -> (r: Option<usize>)
    ensures
        match r {
            Some(i) => is_first_node(nodes@, id@, i as int),
            None => !has_node(nodes@, id@),
        },
{
    let mut k: usize = 0;
    while k < nodes.len()
        invariant
            k <= nodes@.len(),
            forall|j: int| 0 <= j < k ==> (#[trigger] nodes@[j]).id@ != id@,
        decreases nodes.len() - k,
    {
        if nodes[k].id == *id {
            return Some(k);
        }
        k = k + 1;
    }
    None
}

/// The index of the first operator named `id`.
fn find_operator(ops: &Vec<OperatorDefinition>, id: &String) -> (r: Option<usize>)
    ensures
        match r {
            Some(i) => is_first_operator(ops@, id@, i as int),
            None => !has_operator(ops@, id@),
        },
{
    let mut k: usize = 0;
    while k < ops.len()
        invariant
            k <= ops@.len(),
            forall|j: int| 0 <= j < k ==> (#[trigger] ops@[j]).id@ != id@,
        decreases ops.len() - k,
    {
        if ops[k].id == *id {
            return Some(k);
        }
        k = k + 1;
    }
    None
}

/// Splits `s` at its first `/`; two empty strings if it has none.
pub fn split_slash(s: &str) -> (r: (String, String))
    ensures
        r.0@ == spec_split_slash(s@).0,
        r.1@ == spec_split_slash(s@).1,
{
    let n = s.unicode_len();
    let mut p: usize = 0;
    while p < n
        invariant
            n == s@.len(),
            p <= n,
            forall|q: int| 0 <= q < p ==> s@[q] != '/',
        decreases n - p,
    {
        if s.get_char(p) == '/' {
            let head = s.substring_char(0, p).to_owned();
            let tail = s.substring_char(p + 1, n).to_owned();
            proof {
                let c = choose|c: int|
                    0 <= c < s@.len() && s@[c] == '/' && forall|q: int| 0 <= q < c ==> s@[q] != '/';
                assert(0 <= p < s@.len() && s@[p as int] == '/');
                if c < p {
                    assert(s@[c] != '/');
                }
                if c > p {
                    assert(s@[p as int] != '/');
                }
                assert(c == p);
            }
            return (head, tail);
        }
        p = p + 1;
    }
    (String::new(), String::new())
}

/// Checks that an input is fed by a timer or by an output that exists.
/// `input_id` names the input in error messages.
pub fn check_input(mapping: &InputMapping, nodes: &Vec<ResolvedNode>, input_id: &String) -> (r:
    Result<(), CheckError>)
    ensures
        r is Ok <==> input_ok(*mapping, nodes@),
        r is Err ==> !is_path_error(r->Err_0),
        r matches Err(e) ==> input_error(*mapping, nodes@, input_id@, e),
{
    match mapping {
        InputMapping::Timer { .. } => Ok(()),
        InputMapping::User { source, output } => {
            let i = match find_node(nodes, source) {
                Some(i) => i,
                None => {
                    return Err(
                        CheckError::UnknownSourceNode { source: source.clone(), input: input_id.clone() },
                    );
                },
            };
            proof {
                assert forall|i2: int| is_first_node(nodes@, source@, i2) implies i2 == i by {
                    if i2 < i {
                        assert(nodes@[i2].id@ != source@);
                    }
                    if i2 > i {
                        assert(nodes@[i as int].id@ != source@);
                    }
                }
            }
            match &nodes[i].kind {
                CoreNodeKind::Custom(custom) => {
                    if contains(&custom.outputs, output) {
                        Ok(())
                    } else {
                        Err(
                            CheckError::UnknownOutput {
                                source: source.clone(),
                                output: output.clone(),
                                input: input_id.clone(),
                            },
                        )
                    }
                },
                CoreNodeKind::Runtime(runtime) => {
                    let (operator_id, operator_output) = split_slash(output.as_str());
                    let k = match find_operator(&runtime.operators, &operator_id) {
                        Some(k) => k,
                        None => {
                            return Err(
                                CheckError::UnknownSourceOperator {
                                    source: source.clone(),
                                    operator: operator_id,
                                    input: input_id.clone(),
                                },
                            );
                        },
                    };
                    proof {
                        let ops = runtime.operators@;
                        assert forall|k2: int| is_first_operator(ops, operator_id@, k2) implies k2
                            == k by {
                            if k2 < k {
                                assert(ops[k2].id@ != operator_id@);
                            }
                            if k2 > k {
                                assert(ops[k as int].id@ != operator_id@);
                            }
                        }
                    }
                    if contains(&runtime.operators[k].outputs, &operator_output) {
                        Ok(())
                    } else {
                        Err(
                            CheckError::UnknownOutput {
                                source: source.clone(),
                                output: output.clone(),
                                input: input_id.clone(),
                            },
                        )
                    }
                },
            }
        },
    }
}

/// What is left to check once the dataflow itself is valid.
#[derive(Clone, Copy, Debug, PartialEq, Eq, Structural)]
pub struct DataflowCheck {
    /// A Python operator is used: the Python runtime must be checked too.
    pub needs_python_check: bool,
}

/// Whether all nodes are deployed on one machine.
fn is_single_machine(nodes: &Vec<ResolvedNode>) -> (r: bool)
    ensures
        r == spec_is_local(nodes@),
{
    if nodes.len() == 0 {
        return true;
    }
    let mut k: usize = 1;
    while k < nodes.len()
        invariant
            1 <= k <= nodes@.len(),
            forall|j: int| 0 <= j < k ==> (#[trigger] nodes@[j]).machine@ == nodes@[0].machine@,
        decreases nodes.len() - k,
    {
        if nodes[k].machine != nodes[0].machine {
            assert(!spec_is_local(nodes@)) by {
                assert(nodes@[k as int].machine@ != nodes@[0].machine@);
            }
            return false;
        }
        k = k + 1;
    }
    true
}

/// Checks one source path: a URL is skipped, a local path must exist, and a
/// remote one must be absolute.
fn check_path(
    kind: SourceKind,
    path: &String,
    found: bool,
    owner: &String,
    is_local: bool,
) -> (r: Result<(), CheckError>)
    ensures
        r is Ok <==> path_ok(path@, found, is_local),
        r is Err ==> is_path_error(r->Err_0),
        r is Err && is_local ==> r->Err_0 == (CheckError::NotFound { kind, path: *path }),
        r is Err && !is_local ==> r->Err_0 == (CheckError::RelativeRemotePath { kind, owner: *owner }),
{
    if source_is_url(path.as_str()) {
        Ok(())
    } else if is_local {
        if found {
            Ok(())
        } else {
            Err(CheckError::NotFound { kind, path: path.clone() })
        }
    } else if is_absolute_path(path.as_str()) {
        Ok(())
    } else {
        Err(CheckError::RelativeRemotePath { kind, owner: owner.clone() })
    }
}

/// Checks the sources of one node; on success, tells whether it has a
/// Python operator.
fn check_node_paths(node: &ResolvedNode, is_local: bool) -> (r: Result<bool, CheckError>)
    ensures
        r is Ok <==> node_paths_ok(*node, is_local),
        r matches Ok(p) ==> p == node_has_python(*node),
        r is Err ==> is_path_error(r->Err_0),
        r matches Err(e) ==> node_path_error(*node, is_local, e),
{
    match &node.kind {
        CoreNodeKind::Custom(custom) => {
            if custom.source == String::from_str(SHELL_SOURCE) || custom.source == String::from_str(
                DYNAMIC_SOURCE,
            ) {
                Ok(false)
            } else {
                match check_path(SourceKind::Node, &custom.source, custom.source_found, &node.id, is_local) {
                    Ok(()) => Ok(false),
                    Err(e) => Err(e),
                }
            }
        },
        CoreNodeKind::Runtime(runtime) => {
            let ops = &runtime.operators;
            let mut has_python = false;
            let mut k: usize = 0;
            while k < ops.len()
                invariant
                    node.kind == CoreNodeKind::Runtime(*runtime),
                    ops@ == runtime.operators@,
                    k <= ops@.len(),
                    forall|j: int| 0 <= j < k ==> operator_path_ok(#[trigger] ops@[j], is_local),
                    has_python == exists|j: int| 0 <= j < k && (#[trigger] ops@[j]).source is Python,
                decreases ops.len() - k,
            {
                let op = &ops[k];
                let (kind, path) = match &op.source {
                    OperatorSource::SharedLibrary(p) => (SourceKind::SharedLibrary, p),
                    OperatorSource::Python(p) => (SourceKind::Python, p),
                    OperatorSource::Wasm(p) => (SourceKind::Wasm, p),
                };
                if kind == SourceKind::Python {
                    has_python = true;
                }
                match check_path(kind, path, op.source_found, &op.id, is_local) {
                    Ok(()) => {},
                    Err(e) => {
                        assert(node.kind == CoreNodeKind::Runtime(*runtime));
                        assert(!node_paths_ok(*node, is_local)) by {
                            let rt = node.kind->Runtime_0;
                            assert(rt == *runtime);
                            assert(0 <= k < rt.operators@.len());
                            assert(!operator_path_ok(rt.operators@[k as int], is_local));
                        }
                        return Err(e);
                    },
                }
                proof {
                    if ops@[k as int].source is Python {
                        assert(has_python);
                    }
                    if has_python {
                        if !(op.source is Python) {
                            let j = choose|j: int| 0 <= j < k && (#[trigger] ops@[j]).source is Python;
                            assert(0 <= j < k + 1);
                        }
                    }
                }
                k = k + 1;
            }
            Ok(has_python)
        },
    }
}

/// Checks a list of inputs; `prefix` qualifies their names in errors.
fn check_inputs(inputs: &Vec<InputEntry>, nodes: &Vec<ResolvedNode>, prefix: &String) -> (r: Result<
    (),
    CheckError,
>)
    ensures
        r is Ok <==> inputs_ok(inputs@, nodes@),
        r is Err ==> !is_path_error(r->Err_0),
        r matches Err(e) ==> inputs_error(inputs@, nodes@, prefix@, e),
{
    let mut e: usize = 0;
    while e < inputs.len()
        invariant
            e <= inputs@.len(),
            forall|j: int| 0 <= j < e ==> input_ok((#[trigger] inputs@[j]).mapping, nodes@),
        decreases inputs.len() - e,
    {
        let name = prefix.clone().concat(inputs[e].id.as_str());
        match check_input(&inputs[e].mapping, nodes, &name) {
            Ok(()) => {},
            Err(err) => {
                return Err(err);
            },
        }
        e = e + 1;
    }
    Ok(())
}

/// Checks the inputs of one node.
fn check_node_inputs(node: &ResolvedNode, nodes: &Vec<ResolvedNode>) -> (r: Result<(), CheckError>)
    ensures
        r is Ok <==> node_inputs_ok(*node, nodes@),
        r is Err ==> !is_path_error(r->Err_0),
        r matches Err(e) ==> node_inputs_error(*node, nodes@, e),
{
    match &node.kind {
        CoreNodeKind::Custom(custom) => {
            let prefix = node.id.clone().concat("/");
            check_inputs(&custom.inputs, nodes, &prefix)
        },
        CoreNodeKind::Runtime(runtime) => {
            let ops = &runtime.operators;
            let mut k: usize = 0;
            while k < ops.len()
                invariant
                    node.kind == CoreNodeKind::Runtime(*runtime),
                    ops@ == runtime.operators@,
                    k <= ops@.len(),
                    forall|j: int| 0 <= j < k ==> inputs_ok((#[trigger] ops@[j]).inputs@, nodes@),
                decreases ops.len() - k,
            {
                let prefix = ops[k].id.clone().concat("/").concat(node.id.as_str()).concat("/");
                match check_inputs(&ops[k].inputs, nodes, &prefix) {
                    Ok(()) => {},
                    Err(err) => {
                        assert(node.kind == CoreNodeKind::Runtime(*runtime));
                        assert(!inputs_ok(ops@[k as int].inputs@, nodes@));
                        return Err(err);
                    },
                }
                k = k + 1;
            }
            Ok(())
        },
    }
}

/// Checks a dataflow: every source can be found (on a single machine it must
/// exist, across machines its path must be absolute, a URL is not checked),
/// then every input is fed by an output that exists. Source errors are
/// reported before input errors.
pub fn check_dataflow(nodes: &Vec<ResolvedNode>) -> (r: Result<DataflowCheck, CheckError>)
    ensures
        ({
            let is_local = spec_is_local(nodes@);
            let paths_ok = forall|i: int|
                0 <= i < nodes@.len() ==> node_paths_ok(#[trigger] nodes@[i], is_local);
            let inputs_valid = forall|i: int|
                0 <= i < nodes@.len() ==> node_inputs_ok(#[trigger] nodes@[i], nodes@);
            &&& r is Ok <==> paths_ok && inputs_valid
            &&& r is Err ==> (is_path_error(r->Err_0) <==> !paths_ok)
            &&& r is Err && is_path_error(r->Err_0) ==> exists|i: int|
                0 <= i < nodes@.len() && (forall|j: int|
                    0 <= j < i ==> node_paths_ok(#[trigger] nodes@[j], is_local)) && node_path_error(
                    #[trigger] nodes@[i],
                    is_local,
                    r->Err_0,
                )
            &&& r is Err && !is_path_error(r->Err_0) ==> exists|i: int|
                0 <= i < nodes@.len() && (forall|j: int|
                    0 <= j < i ==> node_inputs_ok(#[trigger] nodes@[j], nodes@)) && node_inputs_error(
                    #[trigger] nodes@[i],
                    nodes@,
                    r->Err_0,
                )
            &&& r matches Ok(c) ==> c.needs_python_check == exists|i: int|
                0 <= i < nodes@.len() && node_has_python(#[trigger] nodes@[i])
        }),
{
    let is_local = is_single_machine(nodes);
    let mut has_python = false;
    let mut i: usize = 0;
    while i < nodes.len()
        invariant
            i <= nodes@.len(),
            is_local == spec_is_local(nodes@),
            forall|j: int| 0 <= j < i ==> node_paths_ok(#[trigger] nodes@[j], is_local),
            has_python == exists|j: int| 0 <= j < i && node_has_python(#[trigger] nodes@[j]),
        decreases nodes.len() - i,
    {
        match check_node_paths(&nodes[i], is_local) {
            Ok(p) => {
                proof {
                    if has_python && !p {
                        let j = choose|j: int| 0 <= j < i && node_has_python(#[trigger] nodes@[j]);
                        assert(0 <= j < i + 1);
                    }
                    if p {
                        assert(node_has_python(nodes@[i as int]));
                    }
                }
                has_python = has_python || p;
            },
            Err(e) => {
                assert(!node_paths_ok(nodes@[i as int], is_local));
                return Err(e);
            },
        }
        i = i + 1;
    }
    let mut i: usize = 0;
    while i < nodes.len()
        invariant
            i <= nodes@.len(),
            is_local == spec_is_local(nodes@),
            forall|j: int| 0 <= j < nodes@.len() ==> node_paths_ok(#[trigger] nodes@[j], is_local),
            has_python == exists|j: int|
                0 <= j < nodes@.len() && node_has_python(#[trigger] nodes@[j]),
            forall|j: int| 0 <= j < i ==> node_inputs_ok(#[trigger] nodes@[j], nodes@),
        decreases nodes.len() - i,
    {
        match check_node_inputs(&nodes[i], nodes) {
            Ok(()) => {},
            Err(e) => {
                assert(!node_inputs_ok(nodes@[i as int], nodes@));
                return Err(e);
            },
        }
        i = i + 1;
    }
    Ok(DataflowCheck { needs_python_check: has_python })
}

} // verus!
