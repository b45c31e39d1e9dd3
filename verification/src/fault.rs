//! What can go wrong while a simulation is started or stopped, and the messages that say so.

use vstd::prelude::*;
use crate::path::{Parts, RelPath};
use crate::text::Text;

verus! {

/// The message of an operation that finds the state of the simulation unusable.
pub const POISONED_STATE: &'static str = "estado de simulação está bloqueado/contaminado";

/// A failure, with what the system said of it (`error`) and the path that it is about, below the
/// temporary directory.
#[derive(Debug, PartialEq, Eq)]
pub enum Fault<P = RelPath, T = String> {
    /// The state of the simulation is unusable: its lock is poisoned.
    Poisoned,
    /// The target is refused, with this message.
    Target { message: T },
    /// The state of the child is unknown.
    QueryChild { error: T },
    /// The child could not be ended.
    KillChild { error: T },
    /// The directory of the simulation could not be removed.
    RemoveWorkDir { dir: P, error: T },
    /// The program does not know its own file.
    ResolveProgram { error: T },
    /// The clock stands before the epoch.
    Clock { error: T },
    /// The directory of the simulation could not be created.
    CreateWorkDir { dir: P, error: T },
    /// The directory of the executable could not be created.
    CreateParent { dir: P, error: T },
    /// The program could not be copied.
    CopyProgram { to: P, error: T },
    /// The permissions of the copy could not be read.
    ReadPermissions { file: P, error: T },
    /// The permissions of the copy could not be set.
    SetPermissions { file: P, error: T },
    /// The copy could not be started.
    Spawn { program: P, error: T },
}

impl View for Fault {
    type V = Fault<Parts, Text>;

    open spec fn view(&self) -> Fault<Parts, Text> {
        match *self {
            Fault::Poisoned => Fault::Poisoned,
            Fault::Target { message } => Fault::Target { message: message@ },
            Fault::QueryChild { error } => Fault::QueryChild { error: error@ },
            Fault::KillChild { error } => Fault::KillChild { error: error@ },
            Fault::RemoveWorkDir { dir, error } => Fault::RemoveWorkDir {
                dir: dir@,
                error: error@,
            },
            Fault::ResolveProgram { error } => Fault::ResolveProgram { error: error@ },
            Fault::Clock { error } => Fault::Clock { error: error@ },
            Fault::CreateWorkDir { dir, error } => Fault::CreateWorkDir {
                dir: dir@,
                error: error@,
            },
            Fault::CreateParent { dir, error } => Fault::CreateParent { dir: dir@, error: error@ },
            Fault::CopyProgram { to, error } => Fault::CopyProgram { to: to@, error: error@ },
            Fault::ReadPermissions { file, error } => Fault::ReadPermissions {
                file: file@,
                error: error@,
            },
            Fault::SetPermissions { file, error } => Fault::SetPermissions {
                file: file@,
                error: error@,
            },
            Fault::Spawn { program, error } => Fault::Spawn { program: program@, error: error@ },
        }
    }
}

impl Fault<Parts, Text> {
    /// The path that the fault is about.
    pub open spec fn place_path(self) -> Option<Parts> {
        match self {
            Fault::RemoveWorkDir { dir, .. } => Some(dir),
            Fault::CreateWorkDir { dir, .. } => Some(dir),
            Fault::CreateParent { dir, .. } => Some(dir),
            Fault::CopyProgram { to, .. } => Some(to),
            Fault::ReadPermissions { file, .. } => Some(file),
            Fault::SetPermissions { file, .. } => Some(file),
            Fault::Spawn { program, .. } => Some(program),
            _ => None,
        }
    }

    /// The message of the fault, where the host shows the path that it is about as `place` and
    /// the file of the program itself as `own`.
    pub open spec fn message_text(self, place: Text, own: Text) -> Text {
        match self {
            Fault::Poisoned => POISONED_STATE@,
            Fault::Target { message } => message,
            Fault::QueryChild { error } => "falha ao consultar processo filho: "@ + error,
            Fault::KillChild { error } => "falha ao finalizar processo filho: "@ + error,
            Fault::RemoveWorkDir { error, .. } => "falha ao remover diretório temporário "@ + place
                + ": "@ + error,
            Fault::ResolveProgram { error } => "falha ao resolver binário atual: "@ + error,
            Fault::Clock { error } => "relógio do sistema inválido: "@ + error,
            Fault::CreateWorkDir { error, .. } => "falha ao criar diretório temporário "@ + place
                + ": "@ + error,
            Fault::CreateParent { error, .. } =>
            "falha ao criar diretório do executável simulado "@ + place + ": "@ + error,
            Fault::CopyProgram { error, .. } => "falha ao copiar "@ + own + " para "@ + place
                + ": "@ + error,
            Fault::ReadPermissions { error, .. } => "falha ao ler permissões de "@ + place
                + ": "@ + error,
            Fault::SetPermissions { error, .. } => "falha ao aplicar chmod 755 em "@ + place
                + ": "@ + error,
            Fault::Spawn { error, .. } => "falha ao iniciar processo simulado "@ + place + ": "@
                + error,
        }
    }
}

fn about(what: &str, error: &String) -> (r: String)
    ensures
        r@ == what@ + error@,
{
    let mut r = what.to_string();
    r.append(error.as_str());
    r
}

fn about_place(what: &str, place: &str, error: &String) -> (r: String)
    ensures
        r@ == what@ + place@ + ": "@ + error@,
{
    let mut r = what.to_string();
    r.append(place);
    r.append(": ");
    r.append(error.as_str());
    r
}

impl Fault {
    /// The path that the fault is about, for the host to show.
    pub fn place(&self) -> (r: Option<&RelPath>)
        ensures
            r is Some <==> self@.place_path() is Some,
            r matches Some(p) ==> self@.place_path() == Some(p@),
    {
        match self {
            Fault::RemoveWorkDir { dir, .. } => Some(dir),
            Fault::CreateWorkDir { dir, .. } => Some(dir),
            Fault::CreateParent { dir, .. } => Some(dir),
            Fault::CopyProgram { to, .. } => Some(to),
            Fault::ReadPermissions { file, .. } => Some(file),
            Fault::SetPermissions { file, .. } => Some(file),
            Fault::Spawn { program, .. } => Some(program),
            _ => None,
        }
    }

    /// The message of the fault. The host shows the path that it is about as `place`, and the
    /// file of the program itself as `own`.
    pub fn message(&self, place: &str, own: &str) -> (r: String)
        ensures
            r@ == self@.message_text(place@, own@),
    {
        match self {
            Fault::Poisoned => POISONED_STATE.to_string(),
            Fault::Target { message } => message.clone(),
            Fault::QueryChild { error } => about("falha ao consultar processo filho: ", error),
            Fault::KillChild { error } => about("falha ao finalizar processo filho: ", error),
            Fault::RemoveWorkDir { error, .. } => about_place(
                "falha ao remover diretório temporário ",
                place,
                error,
            ),
            Fault::ResolveProgram { error } => about("falha ao resolver binário atual: ", error),
            Fault::Clock { error } => about("relógio do sistema inválido: ", error),
            Fault::CreateWorkDir { error, .. } => about_place(
                "falha ao criar diretório temporário ",
                place,
                error,
            ),
            Fault::CreateParent { error, .. } => about_place(
                "falha ao criar diretório do executável simulado ",
                place,
                error,
            ),
            Fault::CopyProgram { error, .. } => {
                let mut what = "falha ao copiar ".to_string();
                what.append(own);
                what.append(" para ");
                about_place(what.as_str(), place, error)
            },
            Fault::ReadPermissions { error, .. } => about_place(
                "falha ao ler permissões de ",
                place,
                error,
            ),
            Fault::SetPermissions { error, .. } => about_place(
                "falha ao aplicar chmod 755 em ",
                place,
                error,
            ),
            Fault::Spawn { error, .. } => about_place(
                "falha ao iniciar processo simulado ",
                place,
                error,
            ),
        }
    }
}

} // verus!
