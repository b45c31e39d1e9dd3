//! The path of the simulated executable: which names are accepted, and what path they stand for.

use vstd::prelude::*;
use crate::path;
use crate::path::RelPath;
use crate::text;
use crate::text::Class;

verus! {

/// The longest accepted path, in bytes of UTF-8.
pub const MAX_PATH_BYTES: usize = 180;

/// The message for a path of white space only.
pub const EMPTY_PATH: &'static str = "caminho do executável não pode ser vazio";

/// The message for a path that is too long.
pub const LONG_PATH: &'static str = "caminho do executável deve ter no máximo 180 caracteres";

/// The message for a path that begins at a root.
pub const NOT_RELATIVE: &'static str = "caminho do executável deve ser relativo";

/// The message for a part that is empty or a step to the same or the parent directory.
pub const INVALID_PART: &'static str = "caminho do executável contém parte inválida";

/// The message for a part that ends with a dot.
pub const DOT_AT_END: &'static str = "parte do caminho não pode terminar com ponto";

/// The message for a part with other characters than those of parts.
pub const UNSAFE_PART: &'static str = "use apenas letras, números, ponto, hífen, underscore ou barra";

/// The message for a part that Windows keeps for a device.
pub const RESERVED_PART: &'static str = "parte do caminho é reservada pelo Windows";

/// The capital of a small letter of ASCII, and any other character as it is.
pub open spec fn capital(c: char) -> char {
    if 'a' <= c <= 'z' {
        (c as u32 - 32) as char
    } else {
        c
    }
}

/// A text in the capitals of ASCII.
pub open spec fn capitals(s: Seq<char>) -> Seq<char> {
    s.map_values(|c: char| capital(c))
}

/// The text in the capitals of ASCII.
pub fn to_capitals(s: &str) -> (r: String)
    ensures
        r@ == capitals(s@),
{
    let mut r = String::new();
    for c in it: s.chars()
        invariant
            it.seq() == s@,
            r@ == capitals(s@.take(it.index())),
    {
        assert(s@.take(it.index() + 1).drop_last() =~= s@.take(it.index()));
        if 'a' <= c && c <= 'z' {
            r.push((c as u8 - 32) as char);
        } else {
            r.push(c);
        }
        assert(r@ =~= capitals(s@.take(it.index() + 1)));
    }
    assert(s@.take(s@.len() as int) =~= s@);
    r
}

/// The names of the devices of Windows, in capitals.
pub open spec fn is_device(s: Seq<char>) -> bool {
    ||| s == "CON"@
    ||| s == "PRN"@
    ||| s == "AUX"@
    ||| s == "NUL"@
    ||| s == "COM1"@
    ||| s == "COM2"@
    ||| s == "COM3"@
    ||| s == "COM4"@
    ||| s == "COM5"@
    ||| s == "COM6"@
    ||| s == "COM7"@
    ||| s == "COM8"@
    ||| s == "COM9"@
    ||| s == "LPT1"@
    ||| s == "LPT2"@
    ||| s == "LPT3"@
    ||| s == "LPT4"@
    ||| s == "LPT5"@
    ||| s == "LPT6"@
    ||| s == "LPT7"@
    ||| s == "LPT8"@
    ||| s == "LPT9"@
}

/// The part of a name before its first dot: all of it where there is none.
pub open spec fn stem(name: Seq<char>) -> Seq<char> {
    text::pieces(name, Class::Dot).first()
}

/// Names that Windows keeps for a device, whatever their case and their extension.
pub open spec fn is_reserved(name: Seq<char>) -> bool {
    is_device(capitals(stem(name)))
}

/// Whether Windows keeps the name for a device.
pub fn is_windows_reserved_name(name: &str) -> (r: bool)
    ensures
        r == is_reserved(name@),
{
    let list = text::split(name, Class::Dot);
    assert(text::texts(list@)[0] == list@[0]@);
    let upper = to_capitals(list[0].as_str());
    let s = upper.as_str();
    text::same_text(s, "CON")
        || text::same_text(s, "PRN")
        || text::same_text(s, "AUX")
        || text::same_text(s, "NUL")
        || text::same_text(s, "COM1")
        || text::same_text(s, "COM2")
        || text::same_text(s, "COM3")
        || text::same_text(s, "COM4")
        || text::same_text(s, "COM5")
        || text::same_text(s, "COM6")
        || text::same_text(s, "COM7")
        || text::same_text(s, "COM8")
        || text::same_text(s, "COM9")
        || text::same_text(s, "LPT1")
        || text::same_text(s, "LPT2")
        || text::same_text(s, "LPT3")
        || text::same_text(s, "LPT4")
        || text::same_text(s, "LPT5")
        || text::same_text(s, "LPT6")
        || text::same_text(s, "LPT7")
        || text::same_text(s, "LPT8")
        || text::same_text(s, "LPT9")
}

/// The characters that a path part may hold.
pub open spec fn is_part_char(c: char) -> bool {
    text::is_alphanumeric(c) || c == '_' || c == '-' || c == '.'
}

/// Texts made of characters that a path part may hold.
pub open spec fn is_safe(part: Seq<char>) -> bool {
    forall|i: int| 0 <= i < part.len() ==> is_part_char(#[trigger] part[i])
}

/// The first rule that a path part breaks, as the message that says so; nothing where the part
/// is accepted.
pub open spec fn part_fault(part: Seq<char>) -> Option<Seq<char>> {
    if part.len() == 0 || part == seq!['.'] || part == seq!['.', '.'] {
        Some(INVALID_PART@)
    } else if part.last() == '.' {
        Some(DOT_AT_END@)
    } else if !is_safe(part) {
        Some(UNSAFE_PART@)
    } else if is_reserved(part) {
        Some(RESERVED_PART@)
    } else {
        None
    }
}

/// Checks one part of the path of an executable, and returns it as it is.
pub fn validate_path_part(part: &str) -> (r: Result<String, String>)
    ensures
        match r {
            Ok(same) => part_fault(part@) is None && same@ == part@,
            Err(message) => part_fault(part@) == Some(message@),
        },
{
    let chars = text::chars_of(part);
    let n: usize = chars.len();
    if n == 0 || (n == 1 && chars[0] == '.') || (n == 2 && chars[0] == '.' && chars[1] == '.') {
        assert(n == 1 ==> part@ =~= seq!['.']);
        assert(n == 2 ==> part@ =~= seq!['.', '.']);
        return Err(INVALID_PART.to_string());
    }
    if chars[n - 1] == '.' {
        return Err(DOT_AT_END.to_string());
    }
    let mut i: usize = 0;
    while i < n
        invariant
            i <= n,
            n == chars@.len(),
            chars@ == part@,
            n > 0,
            part@ != seq!['.'],
            part@ != seq!['.', '.'],
            part@.last() != '.',
            forall|j: int| 0 <= j < i ==> is_part_char(#[trigger] part@[j]),
        decreases n - i,
    {
        let c = chars[i];
        if !(text::ascii_alphanumeric(c) || c == '_' || c == '-' || c == '.') {
            assert(!is_part_char(part@[i as int]));
            return Err(UNSAFE_PART.to_string());
        }
        i += 1;
    }
    if is_windows_reserved_name(part) {
        return Err(RESERVED_PART.to_string());
    }
    Ok(part.to_string())
}

/// Texts that begin like an absolute path on one host or another: with a separator, or with a
/// drive and a separator.
pub open spec fn is_rooted(path: Seq<char>) -> bool {
    ||| path.len() > 0 && Class::Separator.contains(path[0])
    ||| has_drive_root(path)
}

/// Texts that begin with a drive and a separator, such as `C:\`.
pub open spec fn has_drive_root(path: Seq<char>) -> bool {
    path.len() >= 3 && path[1] == ':' && Class::Separator.contains(path[2])
}

/// `Path::is_absolute` of the standard library. On Unix a path is absolute if it starts with
/// the root, `/`; on Windows, if it has a prefix (which begins with a separator or is a drive)
/// and starts with the root. So on either host an absolute path is rooted as `is_rooted` says.
/// Which of the rooted paths are absolute depends on the host and is left unsaid.
#[verifier::external_body]
fn is_absolute_path(path: &str) -> (absolute: bool)
    ensures
        absolute ==> is_rooted(path@),
{
    std::path::Path::new(path).is_absolute()
}

/// The parts of a path: what stands between the separators, without white space around it.
pub open spec fn path_parts(path: Seq<char>) -> Seq<Seq<char>> {
    text::pieces(path, Class::Separator).map_values(
        |piece: Seq<char>| text::stripped(piece, Class::White),
    )
}

/// The fault of the first faulty part of a path.
pub open spec fn parts_fault(parts: Seq<Seq<char>>) -> Option<Seq<char>>
    decreases parts.len(),
{
    if parts.len() == 0 {
        None
    } else {
        match parts_fault(parts.drop_last()) {
            Some(message) => Some(message),
            None => part_fault(parts.last()),
        }
    }
}

/// The first rule that a path without white space around it breaks, as the message that says
/// so; nothing where the path is accepted. `absolute` is what the host says of the path.
pub open spec fn path_fault(path: Seq<char>, absolute: bool) -> Option<Seq<char>> {
    if path.len() == 0 {
        Some(EMPTY_PATH@)
    } else if vstd::utf8::encode_utf8(path).len() > MAX_PATH_BYTES {
        Some(LONG_PATH@)
    } else if Class::Separator.contains(path[0]) || absolute {
        Some(NOT_RELATIVE@)
    } else {
        parts_fault(path_parts(path))
    }
}

/// The name of a target without the white space around it.
pub open spec fn target_path(target_name: Seq<char>) -> Seq<char> {
    text::stripped(target_name, Class::White)
}

/// The names of targets that are accepted.
pub open spec fn is_accepted(target_name: Seq<char>) -> bool {
    path_fault(target_path(target_name), false) is None
}

/// The messages that can refuse a target: the fault of its path, where the host may or may not
/// call a path absolute that begins with a drive and a separator.
pub open spec fn is_refusal(target_name: Seq<char>, message: Seq<char>) -> bool {
    let path = target_path(target_name);
    ||| path_fault(path, false) == Some(message)
    ||| has_drive_root(path) && path_fault(path, true) == Some(message)
}

/// Checks a path without white space around it, of which the host has said whether it is
/// absolute, and takes it apart.
pub fn sanitize_trimmed_path(path: &str, absolute: bool) -> (r: Result<RelPath, String>)
    ensures
        match r {
            Ok(clean) => path_fault(path@, absolute) is None && clean@ == path_parts(path@),
            Err(message) => path_fault(path@, absolute) == Some(message@),
        },
{
    if path.is_empty() {
        return Err(EMPTY_PATH.to_string());
    }
    if path.as_bytes().len() > MAX_PATH_BYTES {
        return Err(LONG_PATH.to_string());
    }
    let first = text::chars_of(path)[0];
    if Class::Separator.has(first) || absolute {
        return Err(NOT_RELATIVE.to_string());
    }
    let list = text::split(path, Class::Separator);
    let mut parts: Vec<String> = Vec::new();
    let mut i: usize = 0;
    let ghost all = path_parts(path@);
    assert(all.take(0).len() == 0);
    while i < list.len()
        invariant
            i <= list@.len(),
            text::texts(list@) == text::pieces(path@, Class::Separator),
            all == path_parts(path@),
            path_fault(path@, absolute) == parts_fault(all),
            text::texts(parts@) == all.take(i as int),
            parts_fault(all.take(i as int)) is None,
        decreases list@.len() - i,
    {
        let part = text::strip(list[i].as_str(), Class::White);
        assert(text::texts(list@)[i as int] == list@[i as int]@);
        assert(part@ == all[i as int]);
        assert(all.take(i + 1).drop_last() =~= all.take(i as int));
        match validate_path_part(part.as_str()) {
            Ok(clean) => {
                let ghost before = text::texts(parts@);
                parts.push(clean);
                assert(text::texts(parts@) =~= before.push(all[i as int]));
                assert(all.take(i + 1) =~= before.push(all[i as int]));
            },
            Err(message) => {
                proof {
                    assert(parts_fault(all.take(i + 1)) == Some(message@));
                    lemma_first_fault_stays(all, i + 1);
                }
                return Err(message);
            },
        }
        i += 1;
    }
    assert(all.take(i as int) =~= all);
    Ok(RelPath { parts })
}

/// Checks the name of a target and takes it apart into the path below the work directory.
///
/// Whether a name is accepted does not depend on the host. Which message refuses a name that
/// begins with a drive and a separator does: the host may call it absolute.
pub fn sanitize_target_path(target_name: &str) -> (r: Result<RelPath, String>)
    ensures
        r is Ok <==> is_accepted(target_name@),
        r matches Ok(clean) ==> clean@ == path_parts(target_path(target_name@)),
        r matches Err(message) ==> is_refusal(target_name@, message@),
{
    let trimmed = text::strip(target_name, Class::White);
    let absolute = is_absolute_path(trimmed.as_str());
    proof {
        if has_drive_root(trimmed@) {
            lemma_drive_is_refused(target_name@);
        }
    }
    sanitize_trimmed_path(trimmed.as_str(), absolute)
}

/// A fault found among the first parts of a path is the fault of the path.
pub(crate) proof fn lemma_first_fault_stays(parts: Seq<Seq<char>>, n: int)
    requires
        0 <= n <= parts.len(),
        parts_fault(parts.take(n)) is Some,
    ensures
        parts_fault(parts) == parts_fault(parts.take(n)),
    decreases parts.len(),
{
    if n < parts.len() {
        assert(parts.drop_last().take(n) =~= parts.take(n));
        lemma_first_fault_stays(parts.drop_last(), n);
    } else {
        assert(parts.take(n) =~= parts);
    }
}

/// A path that begins with a drive is refused, whether or not the host calls it absolute.
proof fn lemma_drive_is_refused(target_name: Seq<char>)
    requires
        has_drive_root(target_path(target_name)),
    ensures
        path_fault(target_path(target_name), false) is Some,
        path_fault(target_path(target_name), true) is Some,
{
    let path = target_path(target_name);
    text::lemma_stripped(target_name, Class::White);
    if !Class::Separator.contains(path[0]) {
        text::lemma_first_piece(path, Class::Separator, 2);
        let drive = path.take(2);
        assert(drive.drop_first().len() == 1);
        assert(text::stripped(drive, Class::White) == drive);
        let parts = path_parts(path);
        assert(parts[0] == drive);
        assert(drive[1] == ':');
        assert(!is_part_char(drive[1]));
        assert(part_fault(drive) is Some);
        assert(parts.take(1) =~= seq![drive]);
        assert(parts_fault(parts.take(1).drop_last()) is None);
        assert(parts_fault(parts.take(1)) == part_fault(drive));
        lemma_first_fault_stays(parts, 1);
    }
}

/// A path without a faulty part has only accepted parts.
pub(crate) proof fn lemma_no_fault(parts: Seq<Seq<char>>)
    ensures
        parts_fault(parts) is None <==> forall|i: int|
            0 <= i < parts.len() ==> part_fault(#[trigger] parts[i]) is None,
    decreases parts.len(),
{
    if parts.len() > 0 {
        let front = parts.drop_last();
        lemma_no_fault(front);
        assert(parts.last() == parts[parts.len() - 1]);
        if parts_fault(parts) is None {
            assert forall|i: int| 0 <= i < parts.len() implies part_fault(
                #[trigger] parts[i],
            ) is None by {
                if i < front.len() {
                    assert(front[i] == parts[i]);
                }
            }
        }
        if forall|i: int| 0 <= i < parts.len() ==> part_fault(#[trigger] parts[i]) is None {
            assert forall|i: int| 0 <= i < front.len() implies part_fault(
                #[trigger] front[i],
            ) is None by {
                assert(front[i] == parts[i]);
            }
        }
    }
}

/// An accepted target cannot leave the directory it is appended to: it has at least one part,
/// and every part is a plain name made of letters, digits, `_`, `-` and `.`, does not end with a
/// dot and is not kept by Windows for a device.
pub proof fn law_accepted_target_is_confined(target_name: Seq<char>)
    requires
        is_accepted(target_name),
    ensures
        path::is_confined(path_parts(target_path(target_name))),
        forall|i: int|
            0 <= i < path_parts(target_path(target_name)).len() ==> {
                let part = #[trigger] path_parts(target_path(target_name))[i];
                is_safe(part) && part.last() != '.' && !is_reserved(part)
            },
{
    let parts = path_parts(target_path(target_name));
    text::lemma_pieces_of_plain(target_path(target_name), Class::Separator);
    lemma_no_fault(parts);
    assert forall|i: int| 0 <= i < parts.len() implies path::is_plain_part(
        #[trigger] parts[i],
    ) by {
        let part = parts[i];
        assert(part_fault(part) is None);
        assert forall|j: int| 0 <= j < part.len() implies #[trigger] part[j] != '/' && part[j]
            != '\\' && part[j] != ':' by {
            assert(is_part_char(part[j]));
        }
    }
}

/// Accepted parts, joined by `/`, hold nothing but characters of parts and `/`, and begin and end
/// as the first and the last part do.
proof fn lemma_portable_chars(parts: Seq<Seq<char>>)
    requires
        parts.len() > 0,
        forall|i: int| 0 <= i < parts.len() ==> part_fault(#[trigger] parts[i]) is None,
    ensures
        path::portable(parts).len() > 0,
        path::portable(parts).first() == parts.first().first(),
        path::portable(parts).last() == parts.last().last(),
        forall|i: int|
            0 <= i < path::portable(parts).len() ==> is_part_char(
                #[trigger] path::portable(parts)[i],
            ) || path::portable(parts)[i] == '/',
    decreases parts.len(),
{
    let last = parts[parts.len() - 1];
    assert(part_fault(last) is None);
    let p = path::portable(parts);
    if parts.len() > 1 {
        let front = parts.drop_last();
        assert forall|i: int| 0 <= i < front.len() implies part_fault(#[trigger] front[i]) is None by {
            assert(front[i] == parts[i]);
        }
        lemma_portable_chars(front);
        let q = path::portable(front);
        assert(p == q + seq!['/'] + last);
        assert forall|i: int| 0 <= i < p.len() implies is_part_char(#[trigger] p[i]) || p[i]
            == '/' by {
            if i < q.len() {
                assert(p[i] == q[i]);
            } else if i > q.len() {
                assert(p[i] == last[i - q.len() - 1]);
            }
        }
        assert(p.last() == last[last.len() - 1]);
    }
}

/// Every list of accepted parts is the path of some target, as long as it is not too long: its
/// portable text is accepted, on every host, and stands for that very path.
pub proof fn law_valid_parts_are_accepted(parts: Seq<Seq<char>>)
    requires
        parts.len() > 0,
        forall|i: int| 0 <= i < parts.len() ==> part_fault(#[trigger] parts[i]) is None,
        path::portable(parts).len() <= MAX_PATH_BYTES,
    ensures
        is_accepted(path::portable(parts)),
        !is_rooted(target_path(path::portable(parts))),
        path_parts(target_path(path::portable(parts))) == parts,
{
    let p = path::portable(parts);
    lemma_portable_chars(parts);
    assert(part_fault(parts[0]) is None);
    assert(is_part_char(parts[0][0]));
    assert(part_fault(parts[parts.len() - 1]) is None);
    assert(is_part_char(parts.last()[parts.last().len() - 1]));
    assert(target_path(p) == p);
    assert(vstd::utf8::is_ascii_chars(p)) by {
        assert forall|i: int| 0 <= i < p.len() implies '\0' <= #[trigger] p[i] <= '\u{7f}' by {
            assert(is_part_char(p[i]) || p[i] == '/');
        }
    }
    vstd::utf8::is_ascii_chars_encode_utf8(p);
    assert forall|i: int, j: int|
        #![trigger parts[i][j]]
        0 <= i < parts.len() && 0 <= j < parts[i].len() implies !Class::Separator.contains(
        parts[i][j],
    ) by {
        assert(part_fault(parts[i]) is None);
        assert(is_part_char(parts[i][j]));
    }
    text::law_split_undoes_join(parts, '/', Class::Separator);
    assert forall|i: int| 0 <= i < parts.len() implies text::stripped(
        #[trigger] parts[i],
        Class::White,
    ) == parts[i] by {
        let part = parts[i];
        assert(part_fault(part) is None);
        assert(is_part_char(part[0]));
        assert(is_part_char(part[part.len() - 1]));
    }
    assert(path_parts(p) =~= parts);
    lemma_no_fault(parts);
    if p.len() >= 3 {
        assert(is_part_char(p[1]) || p[1] == '/');
    }
}

/// A text has no more characters than bytes of UTF-8.
proof fn lemma_bytes_cover_chars(s: Seq<char>)
    ensures
        s.len() <= vstd::utf8::encode_utf8(s).len(),
    decreases s.len(),
{
    if s.len() > 0 {
        lemma_bytes_cover_chars(s.drop_first());
    }
}

/// The name under which an accepted target is reported is itself accepted, on every host, and
/// stands for the same path.
pub proof fn law_reported_name_is_accepted(target_name: Seq<char>)
    requires
        is_accepted(target_name),
    ensures
        ({
            let parts = path_parts(target_path(target_name));
            let reported = path::portable(parts);
            &&& is_accepted(reported)
            &&& !is_rooted(target_path(reported))
            &&& path_parts(target_path(reported)) == parts
        }),
{
    let path = target_path(target_name);
    let pieces = text::pieces(path, Class::Separator);
    let parts = path_parts(path);
    text::lemma_pieces_of_plain(path, Class::Separator);
    lemma_no_fault(parts);
    assert forall|i: int| 0 <= i < parts.len() implies (#[trigger] parts[i]).len()
        <= pieces[i].len() by {
        text::lemma_stripped(pieces[i], Class::White);
    }
    text::lemma_joined_len(parts, pieces, seq!['/']);
    text::law_join_undoes_split(path, Class::Separator, '/');
    lemma_bytes_cover_chars(path);
    law_valid_parts_are_accepted(parts);
}

/// The stem of a name reaches up to its first dot, at `k`, or to its end.
pub(crate) proof fn lemma_stem(name: Seq<char>) -> (k: int)
    ensures
        0 <= k <= name.len(),
        stem(name) == name.take(k),
        forall|i: int| 0 <= i < k ==> #[trigger] name[i] != '.',
        k < name.len() ==> name[k] == '.',
    decreases name.len(),
{
    if name.len() == 0 {
        text::lemma_pieces_of_plain(name, Class::Dot);
        assert(name.take(0) =~= name);
        0
    } else {
        let front = name.drop_last();
        let k = lemma_stem(front);
        assert forall|i: int| 0 <= i < k implies #[trigger] name[i] != '.' by {
            assert(front[i] == name[i]);
        }
        if k < front.len() || name.last() == '.' {
            assert(name[k] == '.');
            text::lemma_first_piece(name, Class::Dot, k);
            k
        } else {
            text::lemma_pieces_of_plain(name, Class::Dot);
            assert(name.take(name.len() as int) =~= name);
            name.len() as int
        }
    }
}

/// Whether Windows keeps a name for a device does not depend on the case of its letters.
pub proof fn law_reserved_ignores_case(a: Seq<char>, b: Seq<char>)
    requires
        capitals(a) == capitals(b),
    ensures
        is_reserved(a) == is_reserved(b),
{
    let i = lemma_stem(a);
    let j = lemma_stem(b);
    assert(capitals(a).len() == a.len());
    assert(capitals(b).len() == b.len());
    assert forall|n: int| 0 <= n < a.len() implies (#[trigger] a[n] == '.') == (b[n] == '.') by {
        assert(capitals(a)[n] == capital(a[n]));
        assert(capitals(b)[n] == capital(b[n]));
    }
    assert(i < a.len() ==> a[i] == '.' && b[i] == '.');
    assert(j < a.len() ==> b[j] == '.' && a[j] == '.');
    assert(i == j);
    assert(capitals(stem(a)) =~= capitals(a).take(i));
    assert(capitals(stem(b)) =~= capitals(b).take(i));
}

/// Whether Windows keeps a name for a device does not depend on an extension.
pub proof fn law_reserved_ignores_extension(name: Seq<char>, extension: Seq<char>)
    ensures
        is_reserved(name + seq!['.'] + extension) == is_reserved(name),
{
    let long = name + seq!['.'] + extension;
    let i = lemma_stem(name);
    let j = lemma_stem(long);
    assert(long[name.len() as int] == '.');
    assert(i < name.len() ==> name[i] == '.' && long[i] == '.');
    assert(j < name.len() ==> long[j] == '.' && name[j] == '.');
    assert(i == j);
    assert(long.take(j) =~= name.take(i));
}

/// Separators of either kind take one byte each.
proof fn lemma_replaced_bytes(s: Seq<char>, by: char)
    requires
        Class::Separator.contains(by),
    ensures
        vstd::utf8::encode_utf8(text::replaced(s, Class::Separator, by)).len()
            == vstd::utf8::encode_utf8(s).len(),
    decreases s.len(),
{
    let r = text::replaced(s, Class::Separator, by);
    if s.len() > 0 {
        lemma_replaced_bytes(s.drop_first(), by);
        assert(r.drop_first() =~= text::replaced(s.drop_first(), Class::Separator, by));
        assert(vstd::utf8::encode_scalar(r[0] as u32).len() == vstd::utf8::encode_scalar(
            s[0] as u32,
        ).len());
    }
}

/// White space around a name of a target makes no difference: it is the same path.
pub proof fn law_white_space_makes_no_difference(
    front: Seq<char>,
    target_name: Seq<char>,
    back: Seq<char>,
)
    requires
        forall|i: int| 0 <= i < front.len() ==> text::is_white(#[trigger] front[i]),
        forall|i: int| 0 <= i < back.len() ==> text::is_white(#[trigger] back[i]),
    ensures
        target_path(front + target_name + back) == target_path(target_name),
        is_accepted(front + target_name + back) == is_accepted(target_name),
        forall|message: Seq<char>|
            is_refusal(front + target_name + back, message) == is_refusal(target_name, message),
{
    assert forall|i: int| 0 <= i < front.len() implies Class::White.contains(
        #[trigger] front[i],
    ) by {
        assert(text::is_white(front[i]));
    }
    assert forall|i: int| 0 <= i < back.len() implies Class::White.contains(
        #[trigger] back[i],
    ) by {
        assert(text::is_white(back[i]));
    }
    text::law_stripping_ignores_what_surrounds(front, target_name, back, Class::White);
}

/// The kind of separator makes no difference: a name with every separator written as the same
/// one stands for the same parts, breaks the same rule whatever the host says of it, and is
/// accepted or refused alike.
pub proof fn law_kind_of_separator_makes_no_difference(target_name: Seq<char>, by: char)
    requires
        Class::Separator.contains(by),
    ensures
        ({
            let other = text::replaced(target_name, Class::Separator, by);
            &&& path_parts(target_path(other)) == path_parts(target_path(target_name))
            &&& forall|absolute: bool|
                #[trigger] path_fault(target_path(other), absolute) == path_fault(
                    target_path(target_name),
                    absolute,
                )
            &&& is_accepted(other) == is_accepted(target_name)
            &&& forall|message: Seq<char>|
                is_refusal(other, message) == is_refusal(target_name, message)
        }),
{
    let other = text::replaced(target_name, Class::Separator, by);
    let path = target_path(target_name);
    text::law_separators_are_alike(target_name, by);
    assert(target_path(other) == text::replaced(path, Class::Separator, by));
    text::law_separators_are_alike(path, by);
    lemma_replaced_bytes(path, by);
    assert(has_drive_root(target_path(other)) == has_drive_root(path));
}

/// Off names that begin with a drive and a separator, a refused name has one message only: every
/// check of it, and every start that it refuses, gives the same.
pub proof fn law_refusal_is_unique(target_name: Seq<char>, a: Seq<char>, b: Seq<char>)
    requires
        !has_drive_root(target_path(target_name)),
        is_refusal(target_name, a),
        is_refusal(target_name, b),
    ensures
        a == b,
{
}

/// A name is refused with some message or accepted, never both.
pub proof fn law_refused_or_accepted(target_name: Seq<char>)
    ensures
        is_accepted(target_name) <==> !exists|message: Seq<char>|
            is_refusal(target_name, message),
{
    let path = target_path(target_name);
    if is_accepted(target_name) {
        if has_drive_root(path) {
            lemma_drive_is_refused(target_name);
        }
    } else {
        assert(is_refusal(target_name, path_fault(path, false)->0));
    }
}

} // verus!
