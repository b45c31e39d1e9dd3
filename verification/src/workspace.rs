//! The directories that the application keeps below the temporary directory of the system.

use vstd::prelude::*;
use crate::path;
use crate::path::RelPath;
use crate::text;
use crate::title;

verus! {

/// The name of the directory of the application within the temporary directory.
pub const TEMP_ROOT_NAME: &'static str = "DCAutoQuest";

/// The name of the directory that makes the processes look like an installation of games.
pub const FAKE_GAMES_DIR_NAME: &'static str = "fake_games";

/// The directory of the application, below the temporary directory.
pub open spec fn root_path() -> Seq<Seq<char>> {
    seq![TEMP_ROOT_NAME@]
}

/// The directory of the simulated games, below the temporary directory.
pub open spec fn games_path() -> Seq<Seq<char>> {
    seq![TEMP_ROOT_NAME@, FAKE_GAMES_DIR_NAME@]
}

/// The name of the directory of one simulation.
pub open spec fn work_dir_name(title: Seq<char>, process: nat, nanos: nat) -> Seq<char> {
    title + seq!['-'] + text::decimal(process) + seq!['-'] + text::decimal(nanos)
}

/// The directory of one simulation, below the temporary directory.
pub open spec fn work_dir_path(title: Seq<char>, process: nat, nanos: nat) -> Seq<Seq<char>> {
    games_path().push(work_dir_name(title, process, nanos))
}

/// The directory of the application, below the temporary directory.
pub fn temp_root() -> (r: RelPath)
    ensures
        r@ == root_path(),
{
    let mut parts: Vec<String> = Vec::new();
    parts.push(TEMP_ROOT_NAME.to_string());
    assert(text::texts(parts@) =~= root_path());
    RelPath { parts }
}

/// The directory of the simulated games, below the temporary directory.
pub fn fake_games_root() -> (r: RelPath)
    ensures
        r@ == games_path(),
{
    let mut r = temp_root();
    let ghost above = r@;
    r.parts.push(FAKE_GAMES_DIR_NAME.to_string());
    assert(r@ =~= above.push(FAKE_GAMES_DIR_NAME@));
    r
}

/// The directory for a new simulation of a game of this title, started by this process at this
/// time, in nanoseconds since the epoch.
pub fn build_isolated_work_dir(game_title: &str, process: u32, nanos: u128) -> (r: RelPath)
    ensures
        r@ == work_dir_path(game_title@, process as nat, nanos as nat),
{
    let mut name = game_title.to_string();
    name.push('-');
    name.append(text::decimal_text(process as u128).as_str());
    name.push('-');
    name.append(text::decimal_text(nanos).as_str());
    assert(name@ =~= work_dir_name(game_title@, process as nat, nanos as nat));
    let mut r = fake_games_root();
    let ghost above = r@;
    let ghost last = name@;
    r.parts.push(name);
    assert(r@ =~= above.push(last));
    assert(r@ =~= work_dir_path(game_title@, process as nat, nanos as nat));
    r
}

/// Directories of one simulation: a plain name directly below the directory of the games.
pub open spec fn is_work_dir(dir: Seq<Seq<char>>) -> bool {
    &&& dir.len() == games_path().len() + 1
    &&& path::parent_of(dir) == games_path()
    &&& path::is_confined(dir)
}

proof fn lemma_games_path_is_confined()
    ensures
        path::is_confined(root_path()),
        path::is_confined(games_path()),
{
    reveal_strlit("DCAutoQuest");
    reveal_strlit("fake_games");
    let root = TEMP_ROOT_NAME@;
    let games = FAKE_GAMES_DIR_NAME@;
    assert(root =~= seq!['D', 'C', 'A', 'u', 't', 'o', 'Q', 'u', 'e', 's', 't']);
    assert(games =~= seq!['f', 'a', 'k', 'e', '_', 'g', 'a', 'm', 'e', 's']);
    assert(root.len() == 11);
    assert(games.len() == 10);
    assert(path::is_plain_part(root));
    assert(path::is_plain_part(games));
}

pub(crate) proof fn lemma_decimal_digits(n: nat)
    ensures
        text::decimal(n).len() > 0,
        forall|i: int|
            0 <= i < text::decimal(n).len() ==> '0' <= #[trigger] text::decimal(n)[i] <= '9',
    decreases n,
{
    if n >= 10 {
        lemma_decimal_digits(n / 10);
    }
}

proof fn lemma_decimal_injective(a: nat, b: nat)
    requires
        text::decimal(a) == text::decimal(b),
    ensures
        a == b,
    decreases a,
{
    let x = text::decimal(a);
    let y = text::decimal(b);
    assert(x.last() == text::digit(a % 10));
    assert(y.last() == text::digit(b % 10));
    assert(a % 10 == b % 10);
    if a >= 10 {
        lemma_decimal_digits(a / 10);
    }
    if b >= 10 {
        lemma_decimal_digits(b / 10);
    }
    if a >= 10 && b >= 10 {
        assert(x.drop_last() =~= text::decimal(a / 10));
        assert(y.drop_last() =~= text::decimal(b / 10));
        lemma_decimal_injective(a / 10, b / 10);
    }
}

/// The directory of a simulation with a clean title lies directly in the directory of the games,
/// which lies in the directory of the application, and its name begins with the title.
pub proof fn law_work_dir_is_below_games(title: Seq<char>, process: nat, nanos: nat)
    requires
        title::is_title_text(title),
    ensures
        is_work_dir(work_dir_path(title, process, nanos)),
        path::parent_of(games_path()) == root_path(),
        work_dir_path(title, process, nanos).last().take(title.len() as int) == title,
{
    let name = work_dir_name(title, process, nanos);
    let dir = work_dir_path(title, process, nanos);
    let a = text::decimal(process);
    let b = text::decimal(nanos);
    lemma_decimal_digits(process);
    lemma_decimal_digits(nanos);
    lemma_games_path_is_confined();
    assert(name.take(title.len() as int) =~= title);
    assert(name.last() == b[b.len() - 1]);
    assert forall|i: int| 0 <= i < name.len() implies #[trigger] name[i] != '/' && name[i] != '\\'
        && name[i] != ':' by {
        let m = title.len() as int;
        if i < m {
            assert(name[i] == title[i]);
            assert(title::is_title_char(title[i]));
        } else if i == m {
        } else if i < m + 1 + a.len() {
            assert(name[i] == a[i - m - 1]);
        } else if i > m + 1 + a.len() {
            assert(name[i] == b[i - m - 2 - a.len()]);
        }
    }
    assert(path::is_plain_part(name));
    assert forall|i: int| 0 <= i < dir.len() implies path::is_plain_part(#[trigger] dir[i]) by {
        if i < games_path().len() {
            assert(dir[i] == games_path()[i]);
        }
    }
    assert(path::parent_of(dir) =~= games_path());
    assert(path::parent_of(games_path()) =~= root_path());
}

/// Two texts that agree, and end with a dash and digits each, agree before and after that dash.
proof fn lemma_last_dash(a: Seq<char>, m: nat, b: Seq<char>, n: nat)
    requires
        a + seq!['-'] + text::decimal(m) == b + seq!['-'] + text::decimal(n),
    ensures
        a == b,
        m == n,
{
    let x = text::decimal(m);
    let y = text::decimal(n);
    let s = a + seq!['-'] + x;
    let t = b + seq!['-'] + y;
    lemma_decimal_digits(m);
    lemma_decimal_digits(n);
    assert(s == t);
    assert(s.len() == a.len() + 1 + x.len());
    assert(t.len() == b.len() + 1 + y.len());
    assert(s[a.len() as int] == '-');
    assert(t[b.len() as int] == '-');
    if a.len() < b.len() {
        assert(s[b.len() as int] == x[b.len() as int - a.len() - 1]);
    } else if b.len() < a.len() {
        assert(t[a.len() as int] == y[a.len() as int - b.len() - 1]);
    }
    assert(a =~= s.take(a.len() as int));
    assert(b =~= t.take(a.len() as int));
    assert(x =~= s.skip(a.len() as int + 1));
    assert(y =~= t.skip(a.len() as int + 1));
    lemma_decimal_injective(m, n);
}

/// Simulations are isolated: two of them share a directory only if they agree in the title, the
/// process that started them and the time.
pub proof fn law_work_dirs_are_distinct(
    title1: Seq<char>,
    process1: nat,
    nanos1: nat,
    title2: Seq<char>,
    process2: nat,
    nanos2: nat,
)
    requires
        work_dir_path(title1, process1, nanos1) == work_dir_path(title2, process2, nanos2),
    ensures
        title1 == title2,
        process1 == process2,
        nanos1 == nanos2,
{
    assert(work_dir_path(title1, process1, nanos1).last() == work_dir_name(
        title1,
        process1,
        nanos1,
    ));
    assert(work_dir_path(title2, process2, nanos2).last() == work_dir_name(
        title2,
        process2,
        nanos2,
    ));
    lemma_last_dash(
        title1 + seq!['-'] + text::decimal(process1),
        nanos1,
        title2 + seq!['-'] + text::decimal(process2),
        nanos2,
    );
    lemma_last_dash(title1, process1, title2, process2);
}

} // verus!
