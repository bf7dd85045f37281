//! The operating system's identity. Kernel, family and architecture come
//! together from the system; the distribution comes from the release file,
//! a different authority, and is found or missed on its own.

use vstd::prelude::*;
use vstd::slice::slice_subrange;
use vstd::utf8::{decode_utf8, valid_utf8};
use crate::detect::ProbeError;
use crate::text::{
    contents, decode, lemma_last_line, lemma_lines_concat, lemma_one_line, lines, split_lines,
    without_cr, CR, LF,
};

verus! {

/// What is known of the running system.
#[derive(Debug, Clone, PartialEq, Eq)]
pub struct OsInfo {
    /// The family of the operating system.
    pub os: String,
    /// The release of the kernel.
    pub kernel: String,
    /// The architecture of the machine.
    pub arch: String,
    /// The distribution's name as it presents itself.
    pub distro: String,
}

/// The text of an [`OsInfo`].
pub struct OsFacts {
    pub os: Seq<char>,
    pub kernel: Seq<char>,
    pub arch: Seq<char>,
    pub distro: Seq<char>,
}

impl View for OsInfo {
    type V = OsFacts;

    open spec fn view(&self) -> OsFacts {
        OsFacts { os: self.os@, kernel: self.kernel@, arch: self.arch@, distro: self.distro@ }
    }
}

/// What [`info_from`] answers: nothing at all where the system call reported
/// failure, and every field otherwise.
pub open spec fn info_of(
    status: int,
    os: Seq<char>,
    kernel: Seq<char>,
    arch: Seq<char>,
    distro: Seq<char>,
) -> Result<OsFacts, ProbeError> {
    if status != 0 {
        Err(ProbeError::SyscallFailed)
    } else {
        Ok(OsFacts { os, kernel, arch, distro })
    }
}

/// Calls `whoami::platform` and writes its answer out as `Display` does.
/// The answer depends on the system, so nothing is claimed of it.
#[verifier::external_body]
fn platform_name() -> String {
    whoami::platform().to_string()
}

/// Calls `whoami::arch` and writes its answer out as `Display` does. The
/// answer depends on the machine, so nothing is claimed of it. `whoami`
/// itself asks the kernel with `uname` and gives up with a panic where that
/// fails; [`info`] comes here only after the caller's own `uname` succeeded.
#[verifier::external_body]
fn arch_name() -> String {
    whoami::arch().to_string()
}

/// Calls `whoami::distro`. The answer depends on the system's release file,
/// so nothing is claimed of it.
#[verifier::external_body]
fn distro_name() -> String {
    whoami::distro()
}

/// Puts the identity together from what the system answered. `status` is
/// what the identifying system call returned: where it is not zero the call
/// failed, and no field is reported, whatever the other arguments hold.
pub fn info_from(status: i32, os: String, kernel: String, arch: String, distro: String) -> (r:
    Result<OsInfo, ProbeError>)
    ensures
        match info_of(status as int, os@, kernel@, arch@, distro@) {
            Ok(facts) => r matches Ok(found) && found@ == facts,
            Err(e) => r matches Err(error) && error == e,
        },
{
    if status != 0 {
        return Err(ProbeError::SyscallFailed);
    }
    Ok(OsInfo { os, kernel, arch, distro })
}

/// The identity of the running system. `status` and `release` are what the
/// caller's `uname` call returned and the release it filled in.
///
/// Family, architecture and the distribution's name are asked of the system
/// here, and only once the call is known to have succeeded. Which values
/// those are depends on the system; [`info_from`] states what is made of
/// them.
pub fn info(status: i32, release: String) -> (r: Result<OsInfo, ProbeError>)
    ensures
        status != 0 ==> (r matches Err(error) && error == ProbeError::SyscallFailed),
        status == 0 ==> (r matches Ok(found) && found.kernel@ == release@),
{
    if status != 0 {
        return Err(ProbeError::SyscallFailed);
    }
    let arch = arch_name();
    let distro = distro_name();
    let os = platform_name();
    info_from(status, os, release, arch, distro)
}

/// `I`, the first byte of the key.
pub const KEY_I: u8 = 0x49;

/// `D`, the second byte of the key.
pub const KEY_D: u8 = 0x44;

/// `=`, which parts the key from its value.
pub const EQUALS: u8 = 0x3d;

/// The double quote.
pub const DOUBLE_QUOTE: u8 = 0x22;

/// The single quote.
pub const SINGLE_QUOTE: u8 = 0x27;

/// The line assigns the key `ID`: it starts with `ID=`.
pub open spec fn has_id_key(line: Seq<u8>) -> bool {
    line.len() >= 3 && line[0] == KEY_I && line[1] == KEY_D && line[2] == EQUALS
}

/// A value without the pair of quotes around it: where it starts with a
/// single or a double quote and ends with the same one, both are dropped.
/// Any other value is taken as it stands.
pub open spec fn unquoted(value: Seq<u8>) -> Seq<u8> {
    if value.len() >= 2 && (value[0] == DOUBLE_QUOTE || value[0] == SINGLE_QUOTE) && value.last()
        == value[0] {
        value.subrange(1, value.len() - 1)
    } else {
        value
    }
}

/// The value that the first line with the key `ID` assigns, quotes and all.
pub open spec fn id_value(list: Seq<Seq<u8>>) -> Option<Seq<u8>>
    decreases list.len(),
{
    if list.len() == 0 {
        None
    } else if has_id_key(list[0]) {
        Some(list[0].skip(3))
    } else {
        id_value(list.drop_first())
    }
}

/// The distribution that a release file names. `None` stands for a file that
/// could not be read.
pub open spec fn distro_of(file: Option<Seq<u8>>) -> Result<Seq<char>, ProbeError> {
    match file {
        None => Err(ProbeError::NotFound),
        Some(content) => match id_value(lines(content)) {
            None => Err(ProbeError::NotFound),
            Some(value) => if valid_utf8(unquoted(value)) {
                Ok(decode_utf8(unquoted(value)))
            } else {
                Err(ProbeError::NotFound)
            },
        },
    }
}

/// The bytes `ID=`.
pub open spec fn id_key() -> Seq<u8> {
    seq![KEY_I, KEY_D, EQUALS]
}

/// What the caller read, as the bytes it holds.
pub open spec fn file_view(file: Option<&[u8]>) -> Option<Seq<u8>> {
    match file {
        None => None,
        Some(content) => Some(content@),
    }
}

/// Drops the pair of quotes around a value, if there is one.
pub fn strip_quotes<'a>(value: &'a [u8]) -> (bare: &'a [u8])
    ensures
        bare@ == unquoted(value@),
{
    let n: usize = value.len();
    if n >= 2 && (value[0] == DOUBLE_QUOTE || value[0] == SINGLE_QUOTE) && value[n - 1]
        == value[0] {
        slice_subrange(value, 1, n - 1)
    } else {
        value
    }
}

/// The distribution's identifier, read out of the release file's content.
/// Pass `None` where the file could not be read.
///
/// The answer is the value of the first line that starts with `ID=`, without
/// the quotes around it. The probe fails with [`ProbeError::NotFound`]
/// exactly where there is no file, no such line, or a value that is not
/// text.
pub fn distro(file: Option<&[u8]>) -> (r: Result<String, ProbeError>)
    ensures
        match distro_of(file_view(file)) {
            Ok(name) => r matches Ok(found) && found@ == name,
            Err(e) => r matches Err(error) && error == e,
        },
{
    let content = match file {
        None => { return Err(ProbeError::NotFound); },
        Some(content) => content,
    };
    let list = split_lines(content);
    let ghost all = lines(content@);
    let mut at: usize = 0;
    assert(all.skip(0) =~= all);
    while at < list.len()
        invariant
            at <= list.len(),
            file == Some(content),
            all == lines(content@),
            contents(list@) == all,
            id_value(all) == id_value(all.skip(at as int)),
        decreases list.len() - at,
    {
        let line = list[at];
        proof {
            assert(line@ == all[at as int]);
            assert(all.skip(at as int)[0] == line@);
            assert(all.skip(at as int).drop_first() =~= all.skip(at + 1));
        }
        if line.len() >= 3 && line[0] == KEY_I && line[1] == KEY_D && line[2] == EQUALS {
            let value = slice_subrange(line, 3, line.len());
            assert(value@ =~= line@.skip(3));
            let bare = strip_quotes(value);
            return match decode(bare) {
                Some(name) => Ok(name),
                None => Err(ProbeError::NotFound),
            };
        }
        at += 1;
    }
    Err(ProbeError::NotFound)
}

/// A name between two double quotes, or between two single quotes, is the
/// name.
pub proof fn lemma_unquoted_pair(quote: u8, name: Seq<u8>)
    requires
        quote == DOUBLE_QUOTE || quote == SINGLE_QUOTE,
    ensures
        unquoted(seq![quote] + name + seq![quote]) == name,
{
    let value = seq![quote] + name + seq![quote];
    assert(value.subrange(1, value.len() - 1) =~= name);
}

/// A name that does not begin with a quote stands for itself.
pub proof fn lemma_unquoted_bare(name: Seq<u8>)
    requires
        name.len() > 0 ==> name[0] != DOUBLE_QUOTE && name[0] != SINGLE_QUOTE,
    ensures
        unquoted(name) == name,
{
}

/// The first line with the key decides: where no line before `at` assigns
/// `ID` and the line at `at` does, its value is the one found.
pub proof fn lemma_id_value_first(list: Seq<Seq<u8>>, at: int)
    requires
        0 <= at < list.len(),
        has_id_key(list[at]),
        forall|i: int| 0 <= i < at ==> !has_id_key(#[trigger] list[i]),
    ensures
        id_value(list) == Some(list[at].skip(3)),
    decreases at,
{
    if at > 0 {
        let rest = list.drop_first();
        assert forall|i: int| 0 <= i < at - 1 implies !has_id_key(#[trigger] rest[i]) by {
            assert(rest[i] == list[i + 1]);
        }
        assert(rest[at - 1] == list[at]);
        lemma_id_value_first(rest, at - 1);
    }
}

/// Where no line assigns `ID`, no value is found.
pub proof fn lemma_id_value_none(list: Seq<Seq<u8>>)
    requires
        forall|i: int| 0 <= i < list.len() ==> !has_id_key(#[trigger] list[i]),
    ensures
        id_value(list) is None,
    decreases list.len(),
{
    if list.len() > 0 {
        let rest = list.drop_first();
        assert forall|i: int| 0 <= i < rest.len() implies !has_id_key(#[trigger] rest[i]) by {
            assert(rest[i] == list[i + 1]);
        }
        lemma_id_value_none(rest);
    }
}

/// A release file in which no line starts with `ID=` names no distribution:
/// the probe fails with [`ProbeError::NotFound`].
pub proof fn lemma_distro_missing(content: Seq<u8>)
    requires
        forall|i: int| 0 <= i < lines(content).len() ==> !has_id_key(#[trigger] lines(content)[i]),
    ensures
        distro_of(Some(content)) == Err::<Seq<char>, ProbeError>(ProbeError::NotFound),
{
    lemma_id_value_none(lines(content));
}

/// A release file that holds the line `ID=` and a value, with no line
/// before it that assigns `ID`, names the distribution that the value says,
/// taken without the quotes around it. `head` is what stands in the file
/// before that line and `tail` what stands behind it. The value is one that
/// a line can hold: it has no line feed in it, and no carriage return at its
/// end, which the line's terminator would take.
pub proof fn lemma_distro_named(head: Seq<u8>, value: Seq<u8>, tail: Seq<u8>)
    requires
        head.len() > 0 ==> head.last() == LF,
        forall|i: int| 0 <= i < lines(head).len() ==> !has_id_key(#[trigger] lines(head)[i]),
        forall|j: int| 0 <= j < value.len() ==> value[j] != LF,
        value.len() > 0 ==> value.last() != CR,
        valid_utf8(unquoted(value)),
    ensures
        distro_of(Some(head + (id_key() + value).push(LF) + tail)) == Ok::<Seq<char>, ProbeError>(
            decode_utf8(unquoted(value)),
        ),
{
    let line = id_key() + value;
    let before = lines(head);
    assert(without_cr(line) == line);
    assert(head + line.push(LF) + tail =~= head + (line.push(LF) + tail));
    lemma_lines_concat(head, line.push(LF) + tail);
    lemma_lines_concat(line.push(LF), tail);
    lemma_one_line(line);
    let all = lines(head + line.push(LF) + tail);
    assert(all =~= before + seq![line] + lines(tail));
    assert(all[before.len() as int] == line);
    assert forall|i: int| 0 <= i < before.len() implies !has_id_key(#[trigger] all[i]) by {
        assert(all[i] == before[i]);
    }
    lemma_id_value_first(all, before.len() as int);
    assert(line.skip(3) =~= value);
}

/// The same holds of a last line that no line feed closes: here the file
/// ends with the value.
pub proof fn lemma_distro_named_at_end(head: Seq<u8>, value: Seq<u8>)
    requires
        head.len() > 0 ==> head.last() == LF,
        forall|i: int| 0 <= i < lines(head).len() ==> !has_id_key(#[trigger] lines(head)[i]),
        forall|j: int| 0 <= j < value.len() ==> value[j] != LF,
        valid_utf8(unquoted(value)),
    ensures
        distro_of(Some(head + (id_key() + value))) == Ok::<Seq<char>, ProbeError>(
            decode_utf8(unquoted(value)),
        ),
{
    let line = id_key() + value;
    let before = lines(head);
    lemma_lines_concat(head, line);
    lemma_last_line(line);
    let all = lines(head + line);
    assert(all =~= before + seq![line]);
    assert(all[before.len() as int] == line);
    assert forall|i: int| 0 <= i < before.len() implies !has_id_key(#[trigger] all[i]) by {
        assert(all[i] == before[i]);
    }
    lemma_id_value_first(all, before.len() as int);
    assert(line.skip(3) =~= value);
}

/// A file whose first `ID` line reads `ID=` and a bare name gives that
/// name: `ID=arch` gives `arch`.
pub proof fn lemma_distro_plain(head: Seq<u8>, name: Seq<u8>, tail: Seq<u8>)
    requires
        head.len() > 0 ==> head.last() == LF,
        forall|i: int| 0 <= i < lines(head).len() ==> !has_id_key(#[trigger] lines(head)[i]),
        forall|j: int| 0 <= j < name.len() ==> name[j] != LF,
        name.len() > 0 ==> name[0] != DOUBLE_QUOTE && name[0] != SINGLE_QUOTE && name.last() != CR,
        valid_utf8(name),
    ensures
        distro_of(Some(head + (id_key() + name).push(LF) + tail)) == Ok::<Seq<char>, ProbeError>(
            decode_utf8(name),
        ),
{
    lemma_unquoted_bare(name);
    lemma_distro_named(head, name, tail);
}

/// A file whose first `ID` line reads `ID=` and a name between quotes gives
/// the name without them: `ID="arch"` gives `arch`.
pub proof fn lemma_distro_quoted(head: Seq<u8>, quote: u8, name: Seq<u8>, tail: Seq<u8>)
    requires
        quote == DOUBLE_QUOTE || quote == SINGLE_QUOTE,
        head.len() > 0 ==> head.last() == LF,
        forall|i: int| 0 <= i < lines(head).len() ==> !has_id_key(#[trigger] lines(head)[i]),
        forall|j: int| 0 <= j < name.len() ==> name[j] != LF,
        valid_utf8(name),
    ensures
        distro_of(Some(head + (id_key() + (seq![quote] + name + seq![quote])).push(LF) + tail))
            == Ok::<Seq<char>, ProbeError>(decode_utf8(name)),
{
    let value = seq![quote] + name + seq![quote];
    lemma_unquoted_pair(quote, name);
    lemma_distro_named(head, value, tail);
}

} // verus!
