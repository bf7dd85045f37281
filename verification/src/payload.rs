//! The record that is submitted: what the probes found, merged into one
//! value that can always be built and always be sent, whichever probes
//! failed.

use vstd::prelude::*;
use crate::detect::os::{OsFacts, OsInfo};
use crate::detect::ProbeError;
use crate::json::{array, array_text, pairs_view, json_string, object, object_text, quoted};

verus! {

/// What one machine reports about itself.
#[derive(Debug, Clone, PartialEq, Eq)]
pub struct Payload {
    /// The hardware fingerprint, where it could be taken.
    pub hw_id: Option<String>,
    /// The distribution's identifier, where the release file names one.
    pub distro: Option<String>,
    /// The package manager that the inventory comes from.
    pub package_manager: String,
    /// The system's identity, where the system gave it.
    pub os: Option<OsInfo>,
    /// The installed packages, in the package manager's order.
    pub package_list: Vec<String>,
}

/// The text of a [`Payload`].
pub struct Record {
    pub hw_id: Option<Seq<char>>,
    pub distro: Option<Seq<char>>,
    pub package_manager: Seq<char>,
    pub os: Option<OsFacts>,
    pub package_list: Seq<Seq<char>>,
}

/// The text of a string that may be absent.
pub open spec fn text_view(text: Option<String>) -> Option<Seq<char>> {
    match text {
        Some(t) => Some(t@),
        None => None,
    }
}

/// The text of an identity that may be absent.
pub open spec fn facts_view(os: Option<OsInfo>) -> Option<OsFacts> {
    match os {
        Some(found) => Some(found@),
        None => None,
    }
}

impl View for Payload {
    type V = Record;

    open spec fn view(&self) -> Record {
        Record {
            hw_id: text_view(self.hw_id),
            distro: text_view(self.distro),
            package_manager: self.package_manager@,
            os: facts_view(self.os),
            package_list: self.package_list.deep_view(),
        }
    }
}

/// What a probe's outcome leaves in the record: its value where it
/// succeeded, nothing where it failed.
pub open spec fn found<T>(outcome: Result<T, ProbeError>) -> Option<T> {
    match outcome {
        Ok(value) => Some(value),
        Err(_) => None,
    }
}

/// The name of the one package manager that is asked.
pub open spec fn package_manager() -> Seq<char> {
    "pacman"@
}

/// The value of a probe that succeeded. The cause of a failure is dropped.
fn keep<T>(outcome: Result<T, ProbeError>) -> (kept: Option<T>)
    ensures
        kept == found(outcome),
{
    match outcome {
        Ok(value) => Some(value),
        Err(_) => None,
    }
}

/// `payload` is the record that these outcomes merge into: each probe's
/// value where it succeeded and nothing where it failed, the one package
/// manager's name, and the inventory as it came.
pub open spec fn merges(
    payload: Payload,
    hw: Result<String, ProbeError>,
    os: Result<OsInfo, ProbeError>,
    distro: Result<String, ProbeError>,
    pkgs: Vec<String>,
) -> bool {
    &&& payload.hw_id == found(hw)
    &&& payload.distro == found(distro)
    &&& payload.package_manager@ == package_manager()
    &&& payload.os == found(os)
    &&& payload.package_list == pkgs
}

/// Merges the probes' outcomes into one record. This never fails: a probe
/// that failed leaves its field absent, the package manager's name is
/// always `pacman`, and the inventory is passed through as it came.
pub fn assemble(
    hw: Result<String, ProbeError>,
    os: Result<OsInfo, ProbeError>,
    distro: Result<String, ProbeError>,
    pkgs: Vec<String>,
) -> (payload: Payload)
    ensures
        merges(payload, hw, os, distro, pkgs),
{
    Payload {
        hw_id: keep(hw),
        distro: keep(distro),
        package_manager: "pacman".to_owned(),
        os: keep(os),
        package_list: pkgs,
    }
}

/// One string member where the value is present, none where it is absent.
pub open spec fn optional_field(key: Seq<char>, value: Option<Seq<char>>) -> Seq<
    (Seq<char>, Seq<char>),
> {
    match value {
        Some(text) => seq![(key, json_string(text))],
        None => Seq::empty(),
    }
}

/// The members that the system's identity adds to the record: family,
/// kernel and architecture, side by side with the record's own members.
/// The name under which the distribution presents itself is not among
/// them: `distro` on the wire is the identifier from the release file.
pub open spec fn os_fields(os: Option<OsFacts>) -> Seq<(Seq<char>, Seq<char>)> {
    match os {
        Some(facts) => seq![
            ("os"@, json_string(facts.os)),
            ("kernel"@, json_string(facts.kernel)),
            ("arch"@, json_string(facts.arch)),
        ],
        None => Seq::empty(),
    }
}

/// The members of the wire record, in the order in which they are written.
pub open spec fn wire_fields(record: Record) -> Seq<(Seq<char>, Seq<char>)> {
    optional_field("hwId"@, record.hw_id) + optional_field("distro"@, record.distro) + seq![
        ("packageManager"@, json_string(record.package_manager)),
    ] + os_fields(record.os) + seq![("packageList"@, array_text(record.package_list))]
}

/// The wire record: one JSON object, compact.
pub open spec fn wire_text(record: Record) -> Seq<char> {
    object_text(wire_fields(record))
}

/// Appends the string member `key` to `fields` where `value` is present.
fn push_optional(fields: &mut Vec<(String, String)>, key: &str, value: &Option<String>)
    ensures
        pairs_view(final(fields)@) == pairs_view(old(fields)@) + optional_field(
            key@,
            text_view(*value),
        ),
{
    match value {
        Some(text) => {
            let ghost before = fields@;
            let literal = quoted(text.as_str());
            fields.push((key.to_owned(), literal));
            assert(pairs_view(fields@) =~= pairs_view(before) + optional_field(
                key@,
                text_view(*value),
            ));
        },
        None => {
            assert(pairs_view(fields@) =~= pairs_view(fields@) + optional_field(
                key@,
                text_view(*value),
            ));
        },
    }
}

impl Payload {
    /// The members of the wire record: each key with the JSON text of its
    /// value. A field that is absent has no member.
    pub fn fields(&self) -> (fields: Vec<(String, String)>)
        ensures
            pairs_view(fields@) == wire_fields(self@),
    {
        let mut fields: Vec<(String, String)> = Vec::new();
        assert(pairs_view(fields@) =~= Seq::empty());
        push_optional(&mut fields, "hwId", &self.hw_id);
        push_optional(&mut fields, "distro", &self.distro);
        let ghost head = pairs_view(fields@);
        assert(head =~= optional_field("hwId"@, self@.hw_id) + optional_field(
            "distro"@,
            self@.distro,
        ));
        fields.push(("packageManager".to_owned(), quoted(self.package_manager.as_str())));
        let ghost named = pairs_view(fields@);
        assert(named =~= head + seq![
            ("packageManager"@, json_string(self@.package_manager)),
        ]);
        match &self.os {
            Some(found) => {
                fields.push(("os".to_owned(), quoted(found.os.as_str())));
                fields.push(("kernel".to_owned(), quoted(found.kernel.as_str())));
                fields.push(("arch".to_owned(), quoted(found.arch.as_str())));
            },
            None => {},
        }
        let ghost placed = pairs_view(fields@);
        assert(placed =~= named + os_fields(self@.os));
        fields.push(("packageList".to_owned(), array(&self.package_list)));
        assert(pairs_view(fields@) =~= placed + seq![
            ("packageList"@, array_text(self@.package_list)),
        ]);
        fields
    }

    /// The record as it goes over the wire.
    pub fn to_json(&self) -> (json: String)
        ensures
            json@ == wire_text(self@),
    {
        let fields = self.fields();
        object(&fields)
    }
}

/// The record has a member under `key`.
pub open spec fn has_key(fields: Seq<(Seq<char>, Seq<char>)>, key: Seq<char>) -> bool {
    exists|i: int| 0 <= i < fields.len() && (#[trigger] fields[i]).0 == key
}

/// Whatever the probes found, the wire record names the package manager
/// and lists the packages. Each other member is there exactly where its
/// field is present: `hwId` with the fingerprint, `distro` with the
/// distribution, and `os`, `kernel` and `arch`, all three or none, with the
/// system's identity.
pub proof fn lemma_wire_presence(record: Record)
    ensures
        has_key(wire_fields(record), "packageManager"@),
        has_key(wire_fields(record), "packageList"@),
        has_key(wire_fields(record), "hwId"@) <==> record.hw_id is Some,
        has_key(wire_fields(record), "distro"@) <==> record.distro is Some,
        has_key(wire_fields(record), "os"@) <==> record.os is Some,
        has_key(wire_fields(record), "kernel"@) <==> record.os is Some,
        has_key(wire_fields(record), "arch"@) <==> record.os is Some,
{
    reveal_strlit("hwId");
    reveal_strlit("distro");
    reveal_strlit("packageManager");
    reveal_strlit("os");
    reveal_strlit("kernel");
    reveal_strlit("arch");
    reveal_strlit("packageList");
    let fields = wire_fields(record);
    let first = optional_field("hwId"@, record.hw_id);
    let second = optional_field("distro"@, record.distro);
    let middle = os_fields(record.os);
    let named: int = (first.len() + second.len()) as int;
    assert(fields.len() == named + 1 + middle.len() + 1);
    assert(fields[named].0 == "packageManager"@);
    assert(fields[fields.len() - 1].0 == "packageList"@);
    if record.hw_id is Some {
        assert(fields[0].0 == "hwId"@);
    }
    if record.distro is Some {
        assert(fields[first.len() as int].0 == "distro"@);
    }
    if record.os is Some {
        assert(fields[named + 1].0 == "os"@);
        assert(fields[named + 2].0 == "kernel"@);
        assert(fields[named + 3].0 == "arch"@);
    }
    assert forall|i: int| 0 <= i < fields.len() implies (#[trigger] fields[i]).0 == (if i
        < first.len() {
        "hwId"@
    } else if i < named {
        "distro"@
    } else if i == named {
        "packageManager"@
    } else if i == fields.len() - 1 {
        "packageList"@
    } else if i == named + 1 {
        "os"@
    } else if i == named + 2 {
        "kernel"@
    } else {
        "arch"@
    }) by {}
    assert("hwId"@[0] == 'h' && "arch"@[0] == 'a');
    assert("distro"@[0] == 'd' && "kernel"@[0] == 'k');
}

/// For every combination of probes that succeed and fail, the record that
/// is assembled names `pacman` as the package manager and carries the
/// inventory, and each other member is on the wire if and only if the probe
/// behind it succeeded.
pub proof fn lemma_assembled_presence(
    payload: Payload,
    hw: Result<String, ProbeError>,
    os: Result<OsInfo, ProbeError>,
    distro: Result<String, ProbeError>,
    pkgs: Vec<String>,
)
    requires
        merges(payload, hw, os, distro, pkgs),
    ensures
        payload@.package_manager == package_manager(),
        payload@.package_list == pkgs.deep_view(),
        has_key(wire_fields(payload@), "packageManager"@),
        has_key(wire_fields(payload@), "packageList"@),
        has_key(wire_fields(payload@), "hwId"@) <==> hw is Ok,
        has_key(wire_fields(payload@), "distro"@) <==> distro is Ok,
        has_key(wire_fields(payload@), "os"@) <==> os is Ok,
        has_key(wire_fields(payload@), "kernel"@) <==> os is Ok,
        has_key(wire_fields(payload@), "arch"@) <==> os is Ok,
{
    lemma_wire_presence(payload@);
}

} // verus!
