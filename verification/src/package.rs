//! NRP (Nexus Robotics Package) metadata: a compact `key: value` manifest, and an
//! inspection that fingerprints the package and refuses unsigned packages for
//! production.
use vstd::prelude::*;
use crate::text::{
    chars_of, contains_text, lines, lines_exec, owned, push_char, push_chars, push_str, slice_chars,
    starts_with, starts_with_exec, string_of, texts, trim, trim_exec,
};

verus! {

#[derive(Clone, Copy, Debug, PartialEq, Eq, Structural)]
pub enum PackageType {
    Skill,
    Adapter,
    RobotProfile,
    Simulator,
    Model,
    Integration,
}

#[derive(Clone, Debug, PartialEq, Eq)]
pub struct PackageManifest {
    pub name: String,
    pub version: String,
    pub package_type: PackageType,
    pub nexus_compatibility: String,
    pub components: Vec<String>,
    pub permissions: Vec<String>,
    pub publisher: Option<String>,
    pub signature: Option<String>,
}

#[derive(Clone, Debug, PartialEq, Eq)]
pub struct PackageInspection {
    pub content_hash: String,
    pub signed: bool,
    pub production_allowed: bool,
    pub warnings: Vec<String>,
}

#[derive(Clone, Debug, PartialEq, Eq)]
pub enum PackageError {
    MissingField(&'static str),
    UnsupportedType(String),
    IncompatibleNexus(String),
}

/// The value of `key` in a manifest: the first line whose trimmed text starts with
/// `key:` gives the rest of that line, trimmed; an empty rest counts as absent.
pub open spec fn field_value(ls: Seq<Seq<char>>, key: Seq<char>) -> Option<Seq<char>>
    decreases ls.len(),
{
    if ls.len() == 0 {
        None
    } else {
        let prefix = key + seq![':'];
        let t = trim(ls[0]);
        if starts_with(t, prefix) {
            let v = trim(t.subrange(prefix.len() as int, t.len() as int));
            if v.len() == 0 { None } else { Some(v) }
        } else {
            field_value(ls.drop_first(), key)
        }
    }
}

/// The list items of a manifest: every line whose trimmed text starts with `- `, without that prefix.
pub open spec fn list_items(ls: Seq<Seq<char>>) -> Seq<Seq<char>>
    decreases ls.len(),
{
    if ls.len() == 0 {
        seq![]
    } else {
        let rest = list_items(ls.drop_last());
        let t = trim(ls.last());
        if starts_with(t, "- "@) {
            rest.push(t.subrange(2, t.len() as int))
        } else {
            rest
        }
    }
}

/// The package type named by a manifest's `type` value.
pub open spec fn type_named(s: Seq<char>) -> Option<PackageType> {
    if s == "skill"@ {
        Some(PackageType::Skill)
    } else if s == "adapter"@ {
        Some(PackageType::Adapter)
    } else if s == "robot-profile"@ {
        Some(PackageType::RobotProfile)
    } else if s == "simulator"@ {
        Some(PackageType::Simulator)
    } else if s == "model"@ {
        Some(PackageType::Model)
    } else if s == "integration"@ {
        Some(PackageType::Integration)
    } else {
        None
    }
}

/// The Nexus versions a manifest declares compatibility with (`>=2.0` when absent).
pub open spec fn nexus_value(ls: Seq<Seq<char>>) -> Seq<char> {
    match field_value(ls, "nexus"@) {
        Some(v) => v,
        None => ">=2.0"@,
    }
}

fn field_value_exec(ls: &Vec<Vec<char>>, key: &str) -> (r: Option<Vec<char>>)
    ensures
        match r {
            Some(v) => field_value(ls@.map_values(|l: Vec<char>| l@), key@) == Some(v@),
            None => field_value(ls@.map_values(|l: Vec<char>| l@), key@) is None,
        },
{
    let ghost all = ls@.map_values(|l: Vec<char>| l@);
    let mut prefix = chars_of(key);
    prefix.push(':');
    let mut i: usize = 0;
    proof {
        assert(all.subrange(0, all.len() as int) =~= all);
    }
    while i < ls.len()
        invariant
            all == ls@.map_values(|l: Vec<char>| l@),
            prefix@ == key@ + seq![':'],
            i <= ls@.len(),
            field_value(all, key@) == field_value(all.subrange(i as int, all.len() as int), key@),
        decreases ls@.len() - i,
    {
        let ghost rest = all.subrange(i as int, all.len() as int);
        proof {
            assert(rest[0] == ls@[i as int]@);
            assert(rest.drop_first() =~= all.subrange(i + 1, all.len() as int));
        }
        let t = trim_exec(&ls[i]);
        if starts_with_exec(&t, &prefix) {
            let tail = slice_chars(&t, prefix.len(), t.len());
            let v = trim_exec(&tail);
            if v.len() == 0 {
                return None;
            } else {
                return Some(v);
            }
        }
        i = i + 1;
    }
    None
}

fn type_named_exec(s: &[char]) -> (r: Option<PackageType>)
    ensures
        r == type_named(s@),
{
    if crate::text::is_text(s, "skill") {
        Some(PackageType::Skill)
    } else if crate::text::is_text(s, "adapter") {
        Some(PackageType::Adapter)
    } else if crate::text::is_text(s, "robot-profile") {
        Some(PackageType::RobotProfile)
    } else if crate::text::is_text(s, "simulator") {
        Some(PackageType::Simulator)
    } else if crate::text::is_text(s, "model") {
        Some(PackageType::Model)
    } else if crate::text::is_text(s, "integration") {
        Some(PackageType::Integration)
    } else {
        None
    }
}

fn opt_string(v: Option<Vec<char>>) -> (r: Option<String>)
    ensures
        match v {
            Some(x) => r matches Some(s) && s@ == x@,
            None => r is None,
        },
{
    match v {
        Some(x) => Some(string_of(&x)),
        None => None,
    }
}

/// The text of an optional string.
pub open spec fn opt_text(o: Option<String>) -> Option<Seq<char>> {
    match o {
        Some(s) => Some(s@),
        None => None,
    }
}

impl PackageManifest {
    /// Parses the compact NRP manifest: `name`, `version` and `type` are required (in
    /// that order), `type` must name a known package type, and the `nexus`
    /// compatibility (default `>=2.0`) must mention major version 2. Components are the
    /// `- ` list lines; `publisher` and `signature` are optional.
    pub fn parse(yaml: &str) -> (r: Result<Self, PackageError>)
        ensures
            ({
                let ls = lines(yaml@);
                if field_value(ls, "name"@) is None {
                    r matches Err(PackageError::MissingField(f)) && f@ == "name"@
                } else if field_value(ls, "version"@) is None {
                    r matches Err(PackageError::MissingField(f)) && f@ == "version"@
                } else if field_value(ls, "type"@) is None {
                    r matches Err(PackageError::MissingField(f)) && f@ == "type"@
                } else if type_named(field_value(ls, "type"@)->0) is None {
                    r matches Err(PackageError::UnsupportedType(t)) && t@ == field_value(ls, "type"@)->0
                } else if !contains_text(nexus_value(ls), seq!['2']) {
                    r matches Err(PackageError::IncompatibleNexus(n)) && n@ == nexus_value(ls)
                } else {
                    r matches Ok(m) && m.name@ == field_value(ls, "name"@)->0
                        && m.version@ == field_value(ls, "version"@)->0
                        && Some(m.package_type) == type_named(field_value(ls, "type"@)->0)
                        && m.nexus_compatibility@ == nexus_value(ls)
                        && texts(m.components@) == list_items(ls)
                        && m.permissions@.len() == 0
                        && opt_text(m.publisher) == field_value(ls, "publisher"@)
                        && opt_text(m.signature) == field_value(ls, "signature"@)
                }
            }),
    {
        let cs = chars_of(yaml);
        let ls = lines_exec(&cs);
        let ghost all = lines(yaml@);
        proof {
            assert(ls@.map_values(|l: Vec<char>| l@) =~= all);
        }
        let name = match field_value_exec(&ls, "name") {
            Some(v) => v,
            None => return Err(PackageError::MissingField("name")),
        };
        let version = match field_value_exec(&ls, "version") {
            Some(v) => v,
            None => return Err(PackageError::MissingField("version")),
        };
        let raw_type = match field_value_exec(&ls, "type") {
            Some(v) => v,
            None => return Err(PackageError::MissingField("type")),
        };
        let package_type = match type_named_exec(&raw_type) {
            Some(t) => t,
            None => return Err(PackageError::UnsupportedType(string_of(&raw_type))),
        };
        let nexus = match field_value_exec(&ls, "nexus") {
            Some(v) => v,
            None => {
                let d = chars_of(">=2.0");
                d
            },
        };
        let two = chars_of("2");
        proof {
            reveal_strlit("2");
            assert(two@ =~= seq!['2']);
        }
        if !crate::text::contains_exec(&nexus, &two) {
            return Err(PackageError::IncompatibleNexus(string_of(&nexus)));
        }
        let mut components: Vec<String> = Vec::new();
        let dash = chars_of("- ");
        let mut i: usize = 0;
        while i < ls.len()
            invariant
                all == ls@.map_values(|l: Vec<char>| l@),
                dash@ == "- "@,
                i <= ls@.len(),
                texts(components@) == list_items(all.subrange(0, i as int)),
            decreases ls@.len() - i,
        {
            proof {
                assert(all.subrange(0, i + 1).drop_last() =~= all.subrange(0, i as int));
                assert(all.subrange(0, i + 1).last() == ls@[i as int]@);
            }
            let t = trim_exec(&ls[i]);
            if starts_with_exec(&t, &dash) {
                proof {
                    reveal_strlit("- ");
                }
                let item = slice_chars(&t, 2, t.len());
                components.push(string_of(&item));
            }
            i = i + 1;
            proof {
                reveal_strlit("- ");
                assert(texts(components@) =~= list_items(all.subrange(0, i as int)));
            }
        }
        proof {
            assert(all.subrange(0, all.len() as int) =~= all);
        }
        let publisher = opt_string(field_value_exec(&ls, "publisher"));
        let signature = opt_string(field_value_exec(&ls, "signature"));
        Ok(PackageManifest {
            name: string_of(&name),
            version: string_of(&version),
            package_type,
            nexus_compatibility: string_of(&nexus),
            components,
            permissions: Vec::new(),
            publisher,
            signature,
        })
    }
}

/// The `Debug` name of a package type.
pub open spec fn type_debug_name(t: PackageType) -> Seq<char> {
    match t {
        PackageType::Skill => "Skill"@,
        PackageType::Adapter => "Adapter"@,
        PackageType::RobotProfile => "RobotProfile"@,
        PackageType::Simulator => "Simulator"@,
        PackageType::Model => "Model"@,
        PackageType::Integration => "Integration"@,
    }
}

/// Texts joined with a separator (`[String]::join`).
pub open spec fn join_with(items: Seq<Seq<char>>, sep: Seq<char>) -> Seq<char>
    decreases items.len(),
{
    if items.len() == 0 {
        seq![]
    } else if items.len() == 1 {
        items[0]
    } else {
        join_with(items.drop_last(), sep) + sep + items.last()
    }
}

/// The text a package's fingerprint is computed over: `name:version:Type:c1,c2,...`.
pub open spec fn fingerprint_material(m: PackageManifest) -> Seq<char> {
    m.name@ + seq![':'] + m.version@ + seq![':'] + type_debug_name(m.package_type) + seq![':']
        + join_with(texts(m.components@), seq![','])
}

/// One FNV-1a step: xor the byte in, then multiply by the FNV prime modulo 2^64.
pub open spec fn fnv_step(h: u64, b: u8) -> u64 {
    (((h ^ (b as u64)) as nat * 0x100000001b3nat) % 0x1_0000_0000_0000_0000nat) as u64
}

/// The 64-bit FNV-1a hash of a byte sequence.
pub open spec fn fnv1a(bytes: Seq<u8>) -> u64
    decreases bytes.len(),
{
    if bytes.len() == 0 {
        0xcbf29ce484222325u64
    } else {
        fnv_step(fnv1a(bytes.drop_last()), bytes.last())
    }
}

/// The lower-case hexadecimal digit for `d < 16`.
pub open spec fn hex_char(d: nat) -> char {
    if d < 10 { ((d + 48) as u8) as char } else { ((d + 87) as u8) as char }
}

/// The last `w` hexadecimal digits of `n`, zero-padded (`{:0w$x}` for values that fit).
pub open spec fn hex_fixed(n: nat, w: nat) -> Seq<char>
    decreases w,
{
    if w == 0 {
        seq![]
    } else {
        hex_fixed(n / 16, (w - 1) as nat).push(hex_char(n % 16))
    }
}

fn hex_fixed_exec(n: u64, w: usize) -> (r: Vec<char>)
    ensures
        r@ == hex_fixed(n as nat, w as nat),
    decreases w,
{
    if w == 0 {
        Vec::new()
    } else {
        let mut r = hex_fixed_exec(n / 16, w - 1);
        let d = n % 16;
        let c = if d < 10 { ((d as u8) + 48) as char } else { ((d as u8) + 87) as char };
        r.push(c);
        r
    }
}

fn type_debug_name_exec(t: PackageType) -> (s: &'static str)
    ensures
        s@ == type_debug_name(t),
{
    match t {
        PackageType::Skill => "Skill",
        PackageType::Adapter => "Adapter",
        PackageType::RobotProfile => "RobotProfile",
        PackageType::Simulator => "Simulator",
        PackageType::Model => "Model",
        PackageType::Integration => "Integration",
    }
}

/// Appends `items` joined by `sep` to `out`.
fn push_joined(out: &mut String, items: &Vec<String>, sep: char)
    ensures
        final(out)@ == old(out)@ + join_with(texts(items@), seq![sep]),
{
    let ghost start = out@;
    let mut i: usize = 0;
    while i < items.len()
        invariant
            i <= items@.len(),
            out@ == start + join_with(texts(items@).subrange(0, i as int), seq![sep]),
        decreases items@.len() - i,
    {
        proof {
            assert(texts(items@).subrange(0, i + 1).drop_last() =~= texts(items@).subrange(0, i as int));
        }
        if i > 0 {
            push_char(out, sep);
        }
        push_str(out, items[i].as_str());
        i = i + 1;
        proof {
            let pre = texts(items@).subrange(0, i as int);
            if i == 1 {
                assert(pre =~= seq![items@[0]@]);
            }
            assert(out@ =~= start + join_with(pre, seq![sep]));
        }
    }
    proof {
        assert(texts(items@).subrange(0, items@.len() as int) =~= texts(items@));
    }
}

impl PackageManifest {
    /// Fingerprints the package (`fnv1a:` and the 16-digit hexadecimal FNV-1a hash of the
    /// UTF-8 bytes of its material). Only a signed package is allowed in production; an
    /// unsigned one carries a warning.
    pub fn inspect(&self) -> (i: PackageInspection)
        ensures
            i.content_hash@ == "fnv1a:"@ + hex_fixed(fnv1a(vstd::utf8::encode_utf8(fingerprint_material(*self))) as nat, 16),
            i.signed == self.signature is Some,
            i.production_allowed == self.signature is Some,
            self.signature is Some ==> i.warnings@.len() == 0,
            self.signature is None ==> texts(i.warnings@) == seq![
                "unsigned package: allowed for local development only; production mode must reject it"@
            ],
    {
        let mut material = String::new();
        push_str(&mut material, self.name.as_str());
        push_char(&mut material, ':');
        push_str(&mut material, self.version.as_str());
        push_char(&mut material, ':');
        push_str(&mut material, type_debug_name_exec(self.package_type));
        push_char(&mut material, ':');
        push_joined(&mut material, &self.components, ',');
        proof {
            assert(material@ =~= fingerprint_material(*self));
        }
        let bytes = material.as_str().as_bytes();
        let mut hash: u64 = 0xcbf29ce484222325;
        let mut k: usize = 0;
        while k < bytes.len()
            invariant
                k <= bytes@.len(),
                hash == fnv1a(bytes@.subrange(0, k as int)),
            decreases bytes@.len() - k,
        {
            proof {
                assert(bytes@.subrange(0, k + 1).drop_last() =~= bytes@.subrange(0, k as int));
            }
            hash = (hash ^ bytes[k] as u64).wrapping_mul(0x100000001b3);
            k = k + 1;
        }
        proof {
            assert(bytes@.subrange(0, bytes@.len() as int) =~= bytes@);
        }
        let digits = hex_fixed_exec(hash, 16);
        let mut content_hash = String::new();
        push_str(&mut content_hash, "fnv1a:");
        push_chars(&mut content_hash, &digits);
        let signed = self.signature.is_some();
        let mut warnings: Vec<String> = Vec::new();
        if !signed {
            warnings.push(owned("unsigned package: allowed for local development only; production mode must reject it"));
            proof {
                assert(texts(warnings@) =~= seq![
                    "unsigned package: allowed for local development only; production mode must reject it"@
                ]);
            }
        }
        PackageInspection { content_hash, signed, production_allowed: signed, warnings }
    }
}

} // verus!
