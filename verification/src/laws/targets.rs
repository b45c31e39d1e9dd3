//! Which targets are accepted, and with which message the others are refused.

use vstd::prelude::*;
use crate::laws::{paths, texts};
use crate::path;
use crate::target;
use crate::text;
use crate::text::Class;

verus! {

/// Texts that read as a device name, whatever the case of their letters, up to their end or to a
/// dot after it.
pub open spec fn reads_as(name: Seq<char>, device: Seq<char>) -> bool {
    &&& device.len() <= name.len()
    &&& name.len() > device.len() ==> name[device.len() as int] == '.'
    &&& forall|i: int|
        0 <= i < device.len() ==> is_letter_of(#[trigger] name[i], device[i])
}

/// Characters that are the given one, or the small letter of that capital.
pub open spec fn is_letter_of(c: char, device: char) -> bool {
    ||| c == device
    ||| 65 <= device as u32 <= 90 && c as u32 == device as u32 + 32
}

/// Texts that read as the name of a device of Windows.
pub open spec fn names_a_device(name: Seq<char>) -> bool {
    ||| reads_as(name, seq!['C', 'O', 'N'])
    ||| reads_as(name, seq!['P', 'R', 'N'])
    ||| reads_as(name, seq!['A', 'U', 'X'])
    ||| reads_as(name, seq!['N', 'U', 'L'])
    ||| has_port_number(name) && reads_as(name, seq!['C', 'O', 'M', name[3]])
    ||| has_port_number(name) && reads_as(name, seq!['L', 'P', 'T', name[3]])
}

/// Texts with a digit from one to nine in fourth place.
pub open spec fn has_port_number(name: Seq<char>) -> bool {
    name.len() > 3 && 49 <= name[3] as u32 <= 57
}

/// The characters of a part by number: letters, digits, `_`, `-` and `.`.
pub open spec fn is_part_number(n: u32) -> bool {
    48 <= n <= 57 || 65 <= n <= 90 || 97 <= n <= 122 || n == 95 || n == 45 || n == 46
}

/// Texts made of the characters of parts.
pub open spec fn has_part_numbers(part: Seq<char>) -> bool {
    forall|i: int| 0 <= i < part.len() ==> is_part_number((#[trigger] part[i]) as u32)
}

/// Parts that are accepted: not empty, made of letters, digits, `_`, `-` and `.` of ASCII, not
/// ending with a dot, and not read as a device of Windows.
pub open spec fn is_good_part(part: Seq<char>) -> bool {
    &&& part.len() > 0
    &&& has_part_numbers(part)
    &&& part.last() != '.'
    &&& !names_a_device(part)
}

/// The capital of a character by number.
pub proof fn law_capitals_by_number(c: char)
    ensures
        97 <= c as u32 <= 122 ==> target::capital(c) as u32 == c as u32 - 32,
        !(97 <= c as u32 <= 122) ==> target::capital(c) == c,
{
}

proof fn lemma_capital_of(c: char, device: char)
    requires
        65 <= device as u32 <= 90 || 48 <= device as u32 <= 57,
    ensures
        target::capital(c) == device <==> is_letter_of(c, device),
        is_letter_of(c, device) ==> c != '.',
{
    law_capitals_by_number(c);
}

proof fn lemma_reads_as(name: Seq<char>, device: Seq<char>)
    requires
        forall|i: int|
            0 <= i < device.len() ==> {
                let n = (#[trigger] device[i]) as u32;
                65 <= n <= 90 || 48 <= n <= 57
            },
    ensures
        target::capitals(target::stem(name)) == device <==> reads_as(name, device),
{
    let k = target::lemma_stem(name);
    let m = device.len() as int;
    let up = target::capitals(target::stem(name));
    assert(up.len() == k);
    if up == device {
        assert forall|i: int| 0 <= i < m implies is_letter_of(#[trigger] name[i], device[i]) by {
            assert(up[i] == target::capital(name[i]));
            assert(65 <= device[i] as u32 <= 90 || 48 <= device[i] as u32 <= 57);
            lemma_capital_of(name[i], device[i]);
        }
    }
    if reads_as(name, device) {
        assert forall|i: int| 0 <= i < m implies target::capital(#[trigger] name[i]) == device[i]
            && name[i] != '.' by {
            assert(65 <= device[i] as u32 <= 90 || 48 <= device[i] as u32 <= 57);
            lemma_capital_of(name[i], device[i]);
        }
        if k < m {
            assert(name[k] == '.');
        }
        if k > m {
            assert(name[m] != '.');
        }
        assert(up =~= device);
    }
}

proof fn lemma_devices(s: Seq<char>)
    ensures
        target::is_device(s) <==> {
            ||| s == seq!['C', 'O', 'N']
            ||| s == seq!['P', 'R', 'N']
            ||| s == seq!['A', 'U', 'X']
            ||| s == seq!['N', 'U', 'L']
            ||| has_port_number(s) && s == seq!['C', 'O', 'M', s[3]]
            ||| has_port_number(s) && s == seq!['L', 'P', 'T', s[3]]
        },
{
    reveal_strlit("CON");
    reveal_strlit("PRN");
    reveal_strlit("AUX");
    reveal_strlit("NUL");
    reveal_strlit("COM1");
    reveal_strlit("COM2");
    reveal_strlit("COM3");
    reveal_strlit("COM4");
    reveal_strlit("COM5");
    reveal_strlit("COM6");
    reveal_strlit("COM7");
    reveal_strlit("COM8");
    reveal_strlit("COM9");
    reveal_strlit("LPT1");
    reveal_strlit("LPT2");
    reveal_strlit("LPT3");
    reveal_strlit("LPT4");
    reveal_strlit("LPT5");
    reveal_strlit("LPT6");
    reveal_strlit("LPT7");
    reveal_strlit("LPT8");
    reveal_strlit("LPT9");
    assert("CON"@ =~= seq!['C', 'O', 'N']);
    assert("PRN"@ =~= seq!['P', 'R', 'N']);
    assert("AUX"@ =~= seq!['A', 'U', 'X']);
    assert("NUL"@ =~= seq!['N', 'U', 'L']);
    assert("COM1"@ =~= seq!['C', 'O', 'M', '1']);
    assert("COM2"@ =~= seq!['C', 'O', 'M', '2']);
    assert("COM3"@ =~= seq!['C', 'O', 'M', '3']);
    assert("COM4"@ =~= seq!['C', 'O', 'M', '4']);
    assert("COM5"@ =~= seq!['C', 'O', 'M', '5']);
    assert("COM6"@ =~= seq!['C', 'O', 'M', '6']);
    assert("COM7"@ =~= seq!['C', 'O', 'M', '7']);
    assert("COM8"@ =~= seq!['C', 'O', 'M', '8']);
    assert("COM9"@ =~= seq!['C', 'O', 'M', '9']);
    assert("LPT1"@ =~= seq!['L', 'P', 'T', '1']);
    assert("LPT2"@ =~= seq!['L', 'P', 'T', '2']);
    assert("LPT3"@ =~= seq!['L', 'P', 'T', '3']);
    assert("LPT4"@ =~= seq!['L', 'P', 'T', '4']);
    assert("LPT5"@ =~= seq!['L', 'P', 'T', '5']);
    assert("LPT6"@ =~= seq!['L', 'P', 'T', '6']);
    assert("LPT7"@ =~= seq!['L', 'P', 'T', '7']);
    assert("LPT8"@ =~= seq!['L', 'P', 'T', '8']);
    assert("LPT9"@ =~= seq!['L', 'P', 'T', '9']);
    if has_port_number(s) {
        lemma_digit(s[3]);
    }
}

proof fn lemma_digit(c: char)
    requires
        49 <= c as u32 <= 57,
    ensures
        c == '1' || c == '2' || c == '3' || c == '4' || c == '5' || c == '6' || c == '7' || c
            == '8' || c == '9',
{
}

/// Windows keeps a name for a device exactly if it reads as CON, PRN, AUX, NUL, or COM or LPT and
/// a digit from one to nine, whatever the case of its letters, up to its end or its first dot.
pub proof fn law_reserved_names(name: Seq<char>)
    ensures
        target::is_reserved(name) <==> names_a_device(name),
{
    let up = target::capitals(target::stem(name));
    lemma_devices(up);
    lemma_reads_as(name, seq!['C', 'O', 'N']);
    lemma_reads_as(name, seq!['P', 'R', 'N']);
    lemma_reads_as(name, seq!['A', 'U', 'X']);
    lemma_reads_as(name, seq!['N', 'U', 'L']);
    if has_port_number(name) {
        lemma_reads_as(name, seq!['C', 'O', 'M', name[3]]);
        lemma_reads_as(name, seq!['L', 'P', 'T', name[3]]);
        law_capitals_by_number(name[3]);
    }
    let k = target::lemma_stem(name);
    if has_port_number(up) {
        assert(up[3] == target::capital(name[3]));
        lemma_capital_of(name[3], up[3]);
    }
    if has_port_number(name) && reads_as(name, seq!['C', 'O', 'M', name[3]]) {
        assert(up[3] == name[3]);
    }
    if has_port_number(name) && reads_as(name, seq!['L', 'P', 'T', name[3]]) {
        assert(up[3] == name[3]);
    }
}

/// A name that agrees with that of a device letter by letter, whatever the case, is reserved and
/// refused as a part of a target, alone and with any extension.
pub proof fn law_devices_are_refused_in_any_case(
    name: Seq<char>,
    device: Seq<char>,
    extension: Seq<char>,
)
    requires
        names_a_device(device),
        has_part_numbers(device),
        forall|i: int| 0 <= i < device.len() ==> #[trigger] device[i] != '.',
        name.len() == device.len(),
        forall|i: int|
            0 <= i < name.len() ==> is_letter_of(#[trigger] name[i], device[i]) || is_letter_of(
                device[i],
                name[i],
            ),
    ensures
        target::is_reserved(name),
        target::is_reserved(name + seq!['.'] + extension),
        target::part_fault(name) == Some("parte do caminho é reservada pelo Windows"@),
        target::part_fault(name + seq!['.'] + extension) is Some,
{
    let long = name + seq!['.'] + extension;
    let n = name.len() as int;
    assert forall|i: int| 0 <= i < n implies #[trigger] long[i] == name[i] by {}
    assert forall|i: int| 0 <= i < n implies is_part_number((#[trigger] name[i]) as u32) && name[i]
        != '.' by {
        assert(is_part_number(device[i] as u32));
        assert(device[i] != '.');
        lemma_case_keeps_part_numbers(name[i], device[i]);
    }
    lemma_reads_in_any_case(name, device, seq!['C', 'O', 'N']);
    lemma_reads_in_any_case(name, device, seq!['P', 'R', 'N']);
    lemma_reads_in_any_case(name, device, seq!['A', 'U', 'X']);
    lemma_reads_in_any_case(name, device, seq!['N', 'U', 'L']);
    if has_port_number(device) {
        lemma_digit_has_no_case(name[3], device[3]);
        lemma_reads_in_any_case(name, device, seq!['C', 'O', 'M', device[3]]);
        lemma_reads_in_any_case(name, device, seq!['L', 'P', 'T', device[3]]);
    }
    assert(long[n] == '.');
    law_reserved_names(name);
    law_reserved_names(long);
    law_messages_of_parts(name);
    law_accepted_parts(long);
}

proof fn lemma_case_keeps_part_numbers(c: char, d: char)
    requires
        is_part_number(d as u32),
        d != '.',
        is_letter_of(c, d) || is_letter_of(d, c),
    ensures
        is_part_number(c as u32),
        c != '.',
{
}

proof fn lemma_digit_has_no_case(c: char, d: char)
    requires
        49 <= d as u32 <= 57,
        is_letter_of(c, d) || is_letter_of(d, c),
    ensures
        c == d,
{
}

proof fn lemma_letter_in_any_case(c: char, d: char, device: char)
    requires
        65 <= device as u32 <= 90 || 48 <= device as u32 <= 57,
        is_letter_of(d, device),
        is_letter_of(c, d) || is_letter_of(d, c),
    ensures
        is_letter_of(c, device),
{
}

proof fn lemma_reads_in_any_case(name: Seq<char>, other: Seq<char>, device: Seq<char>)
    requires
        name.len() == other.len(),
        forall|i: int| 0 <= i < other.len() ==> #[trigger] other[i] != '.',
        forall|i: int|
            0 <= i < name.len() ==> is_letter_of(#[trigger] name[i], other[i]) || is_letter_of(
                other[i],
                name[i],
            ),
        forall|i: int|
            0 <= i < device.len() ==> {
                let n = (#[trigger] device[i]) as u32;
                65 <= n <= 90 || 48 <= n <= 57
            },
    ensures
        reads_as(other, device) ==> reads_as(name, device) && name.len() == device.len(),
        reads_as(other, device) ==> forall|rest: Seq<char>|
            reads_as(#[trigger] (name + seq!['.'] + rest), device),
{
    if reads_as(other, device) {
        let m = device.len() as int;
        assert(other.len() > m ==> other[m] != '.');
        assert forall|i: int| 0 <= i < m implies is_letter_of(#[trigger] name[i], device[i]) by {
            assert(is_letter_of(other[i], device[i]));
            assert(65 <= device[i] as u32 <= 90 || 48 <= device[i] as u32 <= 57);
            lemma_letter_in_any_case(name[i], other[i], device[i]);
        }
        assert forall|rest: Seq<char>| reads_as(
            #[trigger] (name + seq!['.'] + rest),
            device,
        ) by {
            let long = name + seq!['.'] + rest;
            assert forall|i: int| 0 <= i < m implies is_letter_of(
                #[trigger] long[i],
                device[i],
            ) by {
                assert(long[i] == name[i]);
            }
        }
    }
}

proof fn lemma_part_numbers(part: Seq<char>)
    ensures
        target::is_safe(part) <==> has_part_numbers(part),
{
    assert forall|i: int| 0 <= i < part.len() implies target::is_part_char(#[trigger] part[i])
        == is_part_number(part[i] as u32) by {
        lemma_part_char(part[i]);
    }
}

proof fn lemma_part_char(c: char)
    ensures
        target::is_part_char(c) == is_part_number(c as u32),
{
}

/// A part is accepted exactly if it is not empty, is made of letters, digits, `_`, `-` and `.` of
/// ASCII, does not end with a dot, and does not read as a device of Windows.
pub proof fn law_accepted_parts(part: Seq<char>)
    ensures
        target::part_fault(part) is None <==> is_good_part(part),
{
    lemma_part_numbers(part);
    law_reserved_names(part);
}

/// The message that refuses a part: for an empty one and the two steps `.` and `..`, for a dot at
/// the end, for another character, and for a device, in this order.
pub proof fn law_messages_of_parts(part: Seq<char>)
    ensures
        part.len() == 0 || part == seq!['.'] || part == seq!['.', '.'] ==> target::part_fault(part)
            == Some("caminho do executável contém parte inválida"@),
        part.len() > 0 && part != seq!['.'] && part != seq!['.', '.'] && part.last() == '.'
            ==> target::part_fault(part) == Some("parte do caminho não pode terminar com ponto"@),
        part.len() > 0 && part.last() != '.' && !has_part_numbers(part) ==> target::part_fault(part)
            == Some("use apenas letras, números, ponto, hífen, underscore ou barra"@),
        part.len() > 0 && part.last() != '.' && has_part_numbers(part) && names_a_device(part)
            ==> target::part_fault(part) == Some("parte do caminho é reservada pelo Windows"@),
{
    lemma_part_numbers(part);
    law_reserved_names(part);
}

/// The path of a target is what stands between the white space around its name.
pub proof fn law_path_of_a_target(front: Seq<char>, path: Seq<char>, back: Seq<char>)
    requires
        forall|i: int| 0 <= i < front.len() ==> texts::is_white_number((#[trigger] front[i]) as u32),
        forall|i: int| 0 <= i < back.len() ==> texts::is_white_number((#[trigger] back[i]) as u32),
        path.len() > 0 ==> !texts::is_white_number(path.first() as u32)
            && !texts::is_white_number(path.last() as u32),
    ensures
        target::target_path(front + path + back) == path,
{
    lemma_white(front);
    lemma_white(back);
    if path.len() > 0 {
        texts::law_classes_by_number(path.first());
        texts::law_classes_by_number(path.last());
    }
    texts::law_stripping_leaves_the_middle(front, path, back, Class::White);
}

proof fn lemma_white(s: Seq<char>)
    requires
        forall|i: int| 0 <= i < s.len() ==> texts::is_white_number((#[trigger] s[i]) as u32),
    ensures
        forall|i: int| 0 <= i < s.len() ==> Class::White.contains(#[trigger] s[i]),
{
    assert forall|i: int| 0 <= i < s.len() implies Class::White.contains(#[trigger] s[i]) by {
        texts::law_classes_by_number(s[i]);
    }
}

/// The parts of a path: a slash of either kind parts those before it from those after it.
pub proof fn law_slashes_part_a_path(a: Seq<char>, slash: char, b: Seq<char>)
    requires
        slash as u32 == 47 || slash as u32 == 92,
    ensures
        target::path_parts(a + seq![slash] + b) == target::path_parts(a) + target::path_parts(b),
{
    texts::law_classes_by_number(slash);
    texts::law_pieces(a, slash, b, Class::Separator);
    assert(target::path_parts(a + seq![slash] + b) =~= target::path_parts(a) + target::path_parts(
        b,
    ));
}

/// The parts of a path without slashes: the one between the white space around it.
pub proof fn law_path_of_one_part(front: Seq<char>, part: Seq<char>, back: Seq<char>)
    requires
        forall|i: int| 0 <= i < front.len() ==> texts::is_white_number((#[trigger] front[i]) as u32),
        forall|i: int| 0 <= i < back.len() ==> texts::is_white_number((#[trigger] back[i]) as u32),
        part.len() > 0 ==> !texts::is_white_number(part.first() as u32)
            && !texts::is_white_number(part.last() as u32),
        forall|i: int|
            0 <= i < part.len() ==> (#[trigger] part[i]) as u32 != 47 && part[i] as u32 != 92,
    ensures
        target::path_parts(front + part + back) == seq![part],
{
    let path = front + part + back;
    law_path_of_a_target(front, part, back);
    assert forall|i: int| 0 <= i < path.len() implies !Class::Separator.contains(
        #[trigger] path[i],
    ) by {
        texts::law_classes_by_number(path[i]);
        if i < front.len() {
            assert(path[i] == front[i]);
        } else if i < front.len() + part.len() {
            assert(path[i] == part[i - front.len()]);
        } else {
            assert(path[i] == back[i - front.len() - part.len()]);
        }
    }
    text::lemma_pieces_of_plain(path, Class::Separator);
    assert(target::path_parts(path) =~= seq![part]);
}

/// The first part that is refused decides for the path; where there is none, no part is refused.
pub proof fn law_first_refused_part_decides(
    before: Seq<Seq<char>>,
    part: Seq<char>,
    after: Seq<Seq<char>>,
)
    requires
        forall|i: int| 0 <= i < before.len() ==> is_good_part(#[trigger] before[i]),
    ensures
        target::parts_fault(before) is None,
        !is_good_part(part) ==> target::parts_fault(before.push(part) + after)
            == target::part_fault(part),
{
    assert forall|i: int| 0 <= i < before.len() implies target::part_fault(
        #[trigger] before[i],
    ) is None by {
        law_accepted_parts(before[i]);
    }
    target::lemma_no_fault(before);
    law_accepted_parts(part);
    let all = before.push(part) + after;
    let n = before.len() as int + 1;
    assert(all.take(n) =~= before.push(part));
    assert(before.push(part).drop_last() =~= before);
    if !is_good_part(part) {
        assert(target::parts_fault(before.push(part)) == target::part_fault(part));
        target::lemma_first_fault_stays(all, n);
    }
}

/// The message that refuses a path, in this order: for an empty one, for one of more than 180
/// bytes, for one that begins with a slash or is absolute to the host, and for its parts.
pub proof fn law_messages_of_paths(path: Seq<char>, absolute: bool)
    ensures
        target::path_fault(path, absolute) == if path.len() == 0 {
            Some("caminho do executável não pode ser vazio"@)
        } else if vstd::utf8::encode_utf8(path).len() > 180 {
            Some("caminho do executável deve ter no máximo 180 caracteres"@)
        } else if absolute || path[0] == '/' || path[0] == '\\' {
            Some("caminho do executável deve ser relativo"@)
        } else {
            target::parts_fault(target::path_parts(path))
        },
{
}

/// A target is accepted exactly if its path is not empty, has at most 180 bytes, does not begin
/// with a slash, and has good parts only.
pub proof fn law_accepted_targets(target_name: Seq<char>)
    ensures
        target::is_accepted(target_name) <==> {
            let path = target::target_path(target_name);
            &&& path.len() > 0
            &&& vstd::utf8::encode_utf8(path).len() <= 180
            &&& path[0] != '/'
            &&& path[0] != '\\'
            &&& forall|i: int|
                0 <= i < target::path_parts(path).len() ==> is_good_part(
                    #[trigger] target::path_parts(path)[i],
                )
        },
{
    let path = target::target_path(target_name);
    let parts = target::path_parts(path);
    law_messages_of_paths(path, false);
    target::lemma_no_fault(parts);
    assert forall|i: int| 0 <= i < parts.len() implies (target::part_fault(
        #[trigger] parts[i],
    ) is None) == is_good_part(parts[i]) by {
        law_accepted_parts(parts[i]);
    }
}

/// The messages that can refuse a target: that of its path as a path that is not absolute, or,
/// where it is short enough and begins with a character, a colon and a slash, that it must be
/// relative.
pub proof fn law_messages_of_targets(target_name: Seq<char>, message: Seq<char>)
    ensures
        target::is_refusal(target_name, message) <==> {
            let path = target::target_path(target_name);
            ||| target::path_fault(path, false) == Some(message)
            ||| {
                &&& path.len() >= 3
                &&& path[1] == ':'
                &&& path[2] == '/' || path[2] == '\\'
                &&& vstd::utf8::encode_utf8(path).len() <= 180
                &&& message == "caminho do executável deve ser relativo"@
            }
        },
{
    let path = target::target_path(target_name);
    law_messages_of_paths(path, false);
    law_messages_of_paths(path, true);
}

/// An accepted target has a last part; the directory that is made for its executable, in whatever
/// directory, is the path of the executable without exactly that part.
pub proof fn law_directory_of_an_accepted_target(dir: Seq<Seq<char>>, target_name: Seq<char>)
    ensures
        ({
            let parts = target::path_parts(target::target_path(target_name));
            &&& parts.len() > 0
            &&& path::parent_of(dir + parts) == dir + parts.drop_last()
            &&& path::parent_of(dir + parts).push(parts.last()) == dir + parts
        }),
{
    let parts = target::path_parts(target::target_path(target_name));
    text::lemma_pieces_of_plain(target::target_path(target_name), Class::Separator);
    paths::law_directory_of_an_executable(dir, parts);
}

} // verus!
