//! Machine code for x86-64 Linux: the expression is evaluated on the stack
//! and its value becomes the exit status of the process.

use crate::ast::{Ast, Op};
use faerie::{Artifact, ArtifactError, Decl};
use target_lexicon::HOST;
use vstd::bytes::{spec_u64_to_le_bytes, u64_to_le_bytes};
use vstd::prelude::*;
use vstd::string::StringExecFns;

verus! {

/// `mov rax, 60; pop rdi; syscall`: leaves the process with the value on top
/// of the stack as its status.
pub open spec fn exit_code() -> Seq<u8> {
    seq![0x48u8, 0xc7, 0xc0, 0x3c, 0x00, 0x00, 0x00, 0x5f, 0x0f, 0x05]
}

/// `pop r8; pop rax`: the right operand into `r8`, the left one into `rax`.
pub open spec fn operands_code() -> Seq<u8> {
    seq![0x41u8, 0x58, 0x58]
}

/// The instructions that combine `rax` and `r8` by `op` and push the result.
pub open spec fn op_code(op: Op) -> Seq<u8> {
    match op {
        Op::Add => seq![0x4cu8, 0x01, 0xc0, 0x50],
        Op::Sub => seq![0x4cu8, 0x29, 0xc0, 0x50],
        Op::Mul => seq![0x49u8, 0xf7, 0xe0, 0x50],
        Op::Div => seq![0x48u8, 0x31, 0xd2, 0x49, 0xf7, 0xf0, 0x50],
    }
}

/// The code that pushes the value of `ast`: `mov rax, val; push rax` for an
/// integer, and for an operation the code of the left operand, that of the
/// right one, and the operator's. A group is the code of what it holds.
pub open spec fn ast_code(ast: Ast) -> Seq<u8>
    decreases ast,
{
    match ast {
        Ast::Int { val, .. } => seq![0x48u8, 0xb8] + spec_u64_to_le_bytes(val) + seq![0x50u8],
        Ast::Op { op, left, right, .. } => ast_code(*left) + ast_code(*right) + operands_code()
            + op_code(op),
        Ast::Group { expr, .. } => ast_code(*expr),
    }
}

/// The whole program for `ast`: its code, then the exit sequence.
pub open spec fn program_code(ast: Ast) -> Seq<u8> {
    ast_code(ast) + exit_code()
}

fn emit(code: &mut Vec<u8>, bytes: &[u8])
    ensures
        final(code)@ == old(code)@ + bytes@,
{
    let mut i: usize = 0;
    while i < bytes.len()
        invariant
            i <= bytes@.len(),
            code@ == old(code)@ + bytes@.subrange(0, i as int),
        decreases bytes@.len() - i,
    {
        code.push(bytes[i]);
        i += 1;
        assert(code@ =~= old(code)@ + bytes@.subrange(0, i as int));
    }
    assert(bytes@.subrange(0, i as int) =~= bytes@);
}

/// Appends the exit sequence to `code`.
pub fn gen_exit(code: &mut Vec<u8>)
    ensures
        final(code)@ == old(code)@ + exit_code(),
{
    emit(code, &[0x48, 0xc7, 0xc0, 0x3c, 0x00, 0x00, 0x00]);
    emit(code, &[0x5f]);
    emit(code, &[0x0f, 0x05]);
    assert(code@ =~= old(code)@ + exit_code());
}

/// Appends the code that pushes the value of `ast` to `code`.
pub fn gen_ast(ast: &Ast, code: &mut Vec<u8>)
    ensures
        final(code)@ == old(code)@ + ast_code(*ast),
    decreases ast,
{
    match ast {
        Ast::Int { val, .. } => {
            emit(code, &[0x48, 0xb8]);
            let bytes = u64_to_le_bytes(*val);
            emit(code, bytes.as_slice());
            code.push(0x50);
            assert(code@ =~= old(code)@ + ast_code(*ast));
        },
        Ast::Op { op, left, right, .. } => {
            gen_ast(left, code);
            gen_ast(right, code);
            emit(code, &[0x41, 0x58, 0x58]);
            match op {
                Op::Add => emit(code, &[0x4c, 0x01, 0xc0, 0x50]),
                Op::Sub => emit(code, &[0x4c, 0x29, 0xc0, 0x50]),
                Op::Mul => emit(code, &[0x49, 0xf7, 0xe0, 0x50]),
                Op::Div => emit(code, &[0x48, 0x31, 0xd2, 0x49, 0xf7, 0xf0, 0x50]),
            }
            assert(code@ =~= old(code)@ + ast_code(*ast));
        },
        Ast::Group { expr, .. } => gen_ast(expr, code),
    }
}

/// The machine code of the program that exits with the value of `ast`.
pub fn gen_program(ast: &Ast) -> (code: Vec<u8>)
    ensures
        code@ == program_code(*ast),
{
    let mut code = Vec::new();
    gen_ast(ast, &mut code);
    gen_exit(&mut code);
    assert(code@ =~= program_code(*ast));
    code
}

/// `faerie::Artifact`: an object file in the making. Nothing of its inside
/// is visible here.
#[verifier::external_type_specification]
#[verifier::external_body]
pub struct ExArtifact(Artifact);

/// `faerie::ArtifactError`: why an artifact refused a declaration or a
/// definition.
#[verifier::external_type_specification]
#[verifier::external_body]
pub struct ExArtifactError(ArtifactError);

/// The name that an artifact was made with.
pub uninterp spec fn artifact_name(obj: Artifact) -> Seq<char>;

/// The definitions that an artifact holds: for the name of each symbol that
/// was defined, the bytes it was defined as.
pub uninterp spec fn artifact_definitions(obj: Artifact) -> Map<Seq<char>, Seq<u8>>;

/// The declarations that an artifact holds: for each name that was
/// declared, whether it is declared as an import, to be found in another
/// object, and not as an object of the artifact itself.
pub uninterp spec fn artifact_declarations(obj: Artifact) -> Map<Seq<char>, bool>;

/// No definitions at all.
pub open spec fn no_definitions() -> Map<Seq<char>, Seq<u8>> {
    Map::empty()
}

/// No declarations at all.
pub open spec fn no_declarations() -> Map<Seq<char>, bool> {
    Map::empty()
}

/// Whether `obj` can take a definition of `name`: the name is declared, as
/// an object of the artifact, and nothing defines it yet.
pub open spec fn definable(obj: Artifact, name: Seq<char>) -> bool {
    &&& artifact_declarations(obj).dom().contains(name)
    &&& !artifact_declarations(obj)[name]
    &&& !artifact_definitions(obj).dom().contains(name)
}

/// Calls `faerie::Artifact::new` for the machine this runs on. The new
/// artifact has the name it is given and holds no declaration and no
/// definition.
#[verifier::external_body]
fn new_artifact(name: &str) -> (obj: Artifact)
    ensures
        artifact_name(obj) == name@,
        artifact_declarations(obj) == no_declarations(),
        artifact_definitions(obj) == no_definitions(),
{
    Artifact::new(HOST, name.to_owned())
}

/// Calls `faerie::Artifact::declare` with the declaration of a function,
/// `faerie::Decl::function()`. The artifact takes the declaration of a name
/// that it holds no declaration of; of a name that is declared already it
/// takes it or refuses it. Where it takes it, the name is declared as an
/// object of the artifact; where it refuses, the declarations stay as they
/// are. The name of the artifact and its definitions stay as they are.
#[verifier::external_body]
fn declare_function(obj: &mut Artifact, name: &str) -> (result: Result<(), ArtifactError>)
    ensures
        artifact_name(*final(obj)) == artifact_name(*old(obj)),
        artifact_definitions(*final(obj)) == artifact_definitions(*old(obj)),
        !artifact_declarations(*old(obj)).dom().contains(name@) ==> result is Ok,
        result is Ok ==> artifact_declarations(*final(obj)) == artifact_declarations(
            *old(obj),
        ).insert(name@, false),
        result is Err ==> artifact_declarations(*final(obj)) == artifact_declarations(*old(obj)),
{
    obj.declare(name, Decl::function())
}

/// Calls `faerie::Artifact::define`. The artifact takes the definition of a
/// name that is declared as an object of its own and not defined yet, and
/// refuses that of a name that is not declared, is declared as an import or
/// is defined already. Where it takes the definition, it holds `data` under
/// `name` besides what it held; where it refuses, it holds what it held.
/// Its name and its declarations stay as they are.
#[verifier::external_body]
fn define(obj: &mut Artifact, name: &str, data: Vec<u8>) -> (result: Result<(), ArtifactError>)
    ensures
        artifact_name(*final(obj)) == artifact_name(*old(obj)),
        artifact_declarations(*final(obj)) == artifact_declarations(*old(obj)),
        result is Ok <==> definable(*old(obj), name@),
        result is Ok ==> artifact_definitions(*final(obj)) == artifact_definitions(
            *old(obj),
        ).insert(name@, data@),
        result is Err ==> artifact_definitions(*final(obj)) == artifact_definitions(*old(obj)),
{
    obj.define(name, data)
}

/// What an artifact answered when it refused the entry point. A new
/// artifact refuses neither its first declaration nor the definition of
/// what was declared, so `compile` returns none of these.
#[derive(Debug)]
pub enum CompileError {
    /// The artifact refused the declaration of the entry point.
    Declare(ArtifactError),
    /// The artifact refused the code of the entry point.
    Define(ArtifactError),
}

/// The name of the object file for the executable `output`.
pub open spec fn object_name(output: Seq<char>) -> Seq<char> {
    output + ".o"@
}

/// The object file of the program that exits with the value of `ast`: an
/// artifact for this machine, named after `output`, whose one declaration
/// and one definition is the function `_start` with the code of the program.
/// It is made for every expression and every name. Writing the artifact out
/// and linking it is left to the caller.
pub fn compile(ast: &Ast, output: &str) -> (result: Result<Artifact, CompileError>)
    ensures
        result matches Ok(obj) && artifact_name(obj) == object_name(output@)
            && artifact_declarations(obj) == no_declarations().insert("_start"@, false)
            && artifact_definitions(obj) == no_definitions().insert(
            "_start"@,
            program_code(*ast),
        ),
{
    let mut obj_filename = output.to_owned();
    obj_filename.append(".o");
    let mut obj = new_artifact(obj_filename.as_str());

    if let Err(error) = declare_function(&mut obj, "_start") {
        return Err(CompileError::Declare(error));
    }

    let code = gen_program(ast);

    if let Err(error) = define(&mut obj, "_start", code) {
        return Err(CompileError::Define(error));
    }
    Ok(obj)
}

} // verus!
