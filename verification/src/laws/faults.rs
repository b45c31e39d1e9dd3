//! The messages of faults, word for word, and the paths that they are about.

use vstd::prelude::*;
use crate::fault::Fault;
use crate::path::{Parts, RelPath};
use crate::text::Text;

verus! {

/// The messages of the faults that are about no path end with what the system or the check said,
/// unshortened; that of a poisoned lock stands alone.
pub proof fn law_messages_without_a_path(said: Text, place: Text, own: Text)
    ensures
        Fault::<Parts, Text>::Poisoned.message_text(place, own)
            == "estado de simulação está bloqueado/contaminado"@,
        (Fault::<Parts, Text>::Target { message: said }).message_text(place, own) == said,
        (Fault::<Parts, Text>::QueryChild { error: said }).message_text(place, own)
            == "falha ao consultar processo filho: "@ + said,
        (Fault::<Parts, Text>::KillChild { error: said }).message_text(place, own)
            == "falha ao finalizar processo filho: "@ + said,
        (Fault::<Parts, Text>::ResolveProgram { error: said }).message_text(place, own)
            == "falha ao resolver binário atual: "@ + said,
        (Fault::<Parts, Text>::Clock { error: said }).message_text(place, own)
            == "relógio do sistema inválido: "@ + said,
{
}

/// The messages of the faults that are about a path name it, and end with what the system said,
/// unshortened; that of a copy names the program too.
pub proof fn law_messages_about_a_path(path: Parts, error: Text, place: Text, own: Text)
    ensures
        (Fault::<Parts, Text>::RemoveWorkDir { dir: path, error }).message_text(place, own)
            == "falha ao remover diretório temporário "@ + place + ": "@ + error,
        (Fault::<Parts, Text>::CreateWorkDir { dir: path, error }).message_text(place, own)
            == "falha ao criar diretório temporário "@ + place + ": "@ + error,
        (Fault::<Parts, Text>::CreateParent { dir: path, error }).message_text(place, own)
            == "falha ao criar diretório do executável simulado "@ + place + ": "@ + error,
        (Fault::<Parts, Text>::CopyProgram { to: path, error }).message_text(place, own)
            == "falha ao copiar "@ + own + " para "@ + place + ": "@ + error,
        (Fault::<Parts, Text>::ReadPermissions { file: path, error }).message_text(place, own)
            == "falha ao ler permissões de "@ + place + ": "@ + error,
        (Fault::<Parts, Text>::SetPermissions { file: path, error }).message_text(place, own)
            == "falha ao aplicar chmod 755 em "@ + place + ": "@ + error,
        (Fault::<Parts, Text>::Spawn { program: path, error }).message_text(place, own)
            == "falha ao iniciar processo simulado "@ + place + ": "@ + error,
{
}

/// The path that a fault is about, where it is about one.
pub proof fn law_places_of_faults(path: Parts, said: Text)
    ensures
        Fault::<Parts, Text>::Poisoned.place_path() is None,
        (Fault::<Parts, Text>::Target { message: said }).place_path() is None,
        (Fault::<Parts, Text>::QueryChild { error: said }).place_path() is None,
        (Fault::<Parts, Text>::KillChild { error: said }).place_path() is None,
        (Fault::<Parts, Text>::ResolveProgram { error: said }).place_path() is None,
        (Fault::<Parts, Text>::Clock { error: said }).place_path() is None,
        (Fault::<Parts, Text>::RemoveWorkDir { dir: path, error: said }).place_path() == Some(path),
        (Fault::<Parts, Text>::CreateWorkDir { dir: path, error: said }).place_path() == Some(path),
        (Fault::<Parts, Text>::CreateParent { dir: path, error: said }).place_path() == Some(path),
        (Fault::<Parts, Text>::CopyProgram { to: path, error: said }).place_path() == Some(path),
        (Fault::<Parts, Text>::ReadPermissions { file: path, error: said }).place_path() == Some(
            path,
        ),
        (Fault::<Parts, Text>::SetPermissions { file: path, error: said }).place_path() == Some(
            path,
        ),
        (Fault::<Parts, Text>::Spawn { program: path, error: said }).place_path() == Some(path),
{
}

/// The contents of a fault are those of its fields.
pub proof fn law_contents_of_faults(path: RelPath, said: String)
    ensures
        Fault::<RelPath, String>::Poisoned@ == Fault::<Parts, Text>::Poisoned,
        (Fault::<RelPath, String>::Target { message: said })@ == (Fault::<Parts, Text>::Target {
            message: said@,
        }),
        (Fault::<RelPath, String>::QueryChild { error: said })@ == (Fault::<
            Parts,
            Text,
        >::QueryChild { error: said@ }),
        (Fault::<RelPath, String>::KillChild { error: said })@ == (Fault::<
            Parts,
            Text,
        >::KillChild { error: said@ }),
        (Fault::<RelPath, String>::ResolveProgram { error: said })@ == (Fault::<
            Parts,
            Text,
        >::ResolveProgram { error: said@ }),
        (Fault::<RelPath, String>::Clock { error: said })@ == (Fault::<Parts, Text>::Clock {
            error: said@,
        }),
        (Fault::<RelPath, String>::RemoveWorkDir { dir: path, error: said })@ == (Fault::<
            Parts,
            Text,
        >::RemoveWorkDir { dir: path@, error: said@ }),
        (Fault::<RelPath, String>::CreateWorkDir { dir: path, error: said })@ == (Fault::<
            Parts,
            Text,
        >::CreateWorkDir { dir: path@, error: said@ }),
        (Fault::<RelPath, String>::CreateParent { dir: path, error: said })@ == (Fault::<
            Parts,
            Text,
        >::CreateParent { dir: path@, error: said@ }),
        (Fault::<RelPath, String>::CopyProgram { to: path, error: said })@ == (Fault::<
            Parts,
            Text,
        >::CopyProgram { to: path@, error: said@ }),
        (Fault::<RelPath, String>::ReadPermissions { file: path, error: said })@ == (Fault::<
            Parts,
            Text,
        >::ReadPermissions { file: path@, error: said@ }),
        (Fault::<RelPath, String>::SetPermissions { file: path, error: said })@ == (Fault::<
            Parts,
            Text,
        >::SetPermissions { file: path@, error: said@ }),
        (Fault::<RelPath, String>::Spawn { program: path, error: said })@ == (Fault::<
            Parts,
            Text,
        >::Spawn { program: path@, error: said@ }),
{
}

} // verus!
