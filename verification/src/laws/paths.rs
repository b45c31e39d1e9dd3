//! Paths, and the directories below the temporary directory.

use vstd::prelude::*;
use crate::laws::texts;
use crate::path;
use crate::path::{Parts, RelPath};
use crate::text;
use crate::workspace;

verus! {

/// The content of a path is that of its parts, one by one.
pub proof fn law_content_of_a_path(p: RelPath)
    ensures
        p@.len() == p.parts@.len(),
        forall|i: int| 0 <= i < p.parts@.len() ==> #[trigger] p@[i] == p.parts@[i]@,
{
    texts::law_contents_of_a_list(p.parts@);
}

/// A path is an entry of its parent: the parent and the last part give the path again.
pub proof fn law_path_is_an_entry_of_its_parent(p: Parts)
    ensures
        p.len() > 0 ==> path::parent_of(p).push(p.last()) == p,
        p.len() == 0 ==> path::parent_of(p) == p,
{
    if p.len() > 0 {
        assert(path::parent_of(p).push(p.last()) =~= p);
    }
}

/// The directory of an executable below a directory is that directory with all parts of the
/// target but exactly the last.
pub proof fn law_directory_of_an_executable(dir: Parts, target: Parts)
    requires
        target.len() > 0,
    ensures
        path::parent_of(dir + target) == dir + target.drop_last(),
        path::parent_of(dir + target).push(target.last()) == dir + target,
{
    law_path_is_an_entry_of_its_parent(dir + target);
    assert(path::parent_of(dir + target) =~= dir + target.drop_last());
}

/// The portable text of a path: of one part that part, and `/` where two paths that are not
/// empty meet.
pub proof fn law_portable_text(a: Parts, b: Parts)
    ensures
        a.len() == 0 ==> path::portable(a) == Seq::<char>::empty(),
        a.len() == 1 ==> path::portable(a) == a[0],
        a.len() > 0 && b.len() > 0 ==> path::portable(a + b) == path::portable(a) + seq!['/']
            + path::portable(b),
{
    texts::law_joining(a, b, seq!['/']);
    if a.len() == 0 {
        assert(a =~= Seq::<Seq<char>>::empty());
    }
}

/// The directories of the application by name: its own, that of the games, and in that the one
/// of a simulation, named by the title, the process and the time in decimal, with dashes between.
pub proof fn law_directories_by_name(title: Seq<char>, process: nat, nanos: nat)
    ensures
        workspace::root_path() == seq!["DCAutoQuest"@],
        workspace::games_path() == seq!["DCAutoQuest"@, "fake_games"@],
        ({
            let dir = workspace::work_dir_path(title, process, nanos);
            let a = text::decimal(process);
            let b = text::decimal(nanos);
            &&& dir == seq![
                "DCAutoQuest"@,
                "fake_games"@,
                title + seq!['-'] + a + seq!['-'] + b,
            ]
            &&& texts::number_of(a) == process
            &&& texts::number_of(b) == nanos
            &&& forall|i: int| 0 <= i < a.len() ==> 48 <= (#[trigger] a[i]) as u32 <= 57
            &&& forall|i: int| 0 <= i < b.len() ==> 48 <= (#[trigger] b[i]) as u32 <= 57
        }),
{
    texts::law_decimal_reads_back(process);
    texts::law_decimal_reads_back(nanos);
    assert(workspace::work_dir_path(title, process, nanos) =~= seq![
        "DCAutoQuest"@,
        "fake_games"@,
        title + seq!['-'] + text::decimal(process) + seq!['-'] + text::decimal(nanos),
    ]);
}

/// Paths that cannot leave the directory they are appended to: they have parts, none of which is
/// empty or one of the steps `.` and `..`, or holds a slash of either kind or a colon.
pub proof fn law_confined_paths(p: Parts)
    ensures
        path::is_confined(p) <==> p.len() > 0 && (forall|i: int|
            0 <= i < p.len() ==> (#[trigger] p[i]).len() > 0 && p[i] != seq!['.'] && p[i] != seq![
                '.',
                '.',
            ]) && (forall|i: int, j: int|
            0 <= i < p.len() && 0 <= j < p[i].len() ==> #[trigger] p[i][j] != '/' && p[i][j] != '\\'
                && p[i][j] != ':'),
{
    if path::is_confined(p) {
        assert forall|i: int, j: int| 0 <= i < p.len() && 0 <= j < p[i].len() implies
            #[trigger] p[i][j] != '/' && p[i][j] != '\\' && p[i][j] != ':' by {
            assert(path::is_plain_part(p[i]));
        }
    }
}

/// The directory of a simulation lies directly below the two of the application.
pub proof fn law_place_of_work_dirs(dir: Parts)
    ensures
        workspace::is_work_dir(dir) <==> dir.len() == 3 && dir[0] == "DCAutoQuest"@ && dir[1]
            == "fake_games"@ && path::is_confined(dir),
{
    let games = seq!["DCAutoQuest"@, "fake_games"@];
    assert(workspace::games_path() =~= games);
    if dir.len() == 3 {
        law_path_is_an_entry_of_its_parent(dir);
        assert(dir.drop_last() =~= path::parent_of(dir)) by {
            assert(path::parent_of(dir).push(dir.last()).drop_last() =~= path::parent_of(dir));
        }
        if dir[0] == "DCAutoQuest"@ && dir[1] == "fake_games"@ {
            assert(dir.drop_last() =~= games);
        }
        if workspace::is_work_dir(dir) {
            assert(dir[0] == games[0]);
            assert(dir[1] == games[1]);
        }
    }
}

} // verus!
