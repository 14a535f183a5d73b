//! The TOML-like hardware manifest: a profile is written as `[section]` headers and
//! `key = value` lines, and read back line by line.
use vstd::prelude::*;
use crate::brain::{minimum_robot_spec, HardwareProfile, ProfileView};
use crate::text::{
    is_digit, is_ws, lemma_char_pos, lemma_decimal_digits, lemma_lines_of_join, lemma_parse_decimal,
    plain_line_text, trim_end, trim_end_char, trim_start, trim_start_char,
    bool_text, chars_of, decimal, join_lines, is_text, lines, lines_exec, parse_bool, parse_bool_exec,
    parse_unsigned, parse_unsigned_exec, push_bool, push_chars, push_char, push_decimal, push_str,
    slice_chars, split_once, split_once_exec, string_of, trim, trim_char, trim_char_exec, trim_exec,
};

verus! {

/// `key = "text"`.
pub open spec fn quoted_line(key: Seq<char>, value: Seq<char>) -> Seq<char> {
    key + " = \""@ + value + "\""@
}

/// `key = value`.
pub open spec fn plain_line(key: Seq<char>, value: Seq<char>) -> Seq<char> {
    key + " = "@ + value
}

/// The lines of the manifest of a profile.
pub open spec fn manifest_lines(p: ProfileView) -> Seq<Seq<char>> {
    seq![
        "[robot]"@,
        quoted_line("name"@, p.name),
        quoted_line("type"@, p.robot_type),
        seq![],
        "[compute]"@,
        quoted_line("architecture"@, p.architecture),
        plain_line("cores"@, decimal(p.cpu_cores as nat)),
        plain_line("ram_mb"@, decimal(p.ram_mb as nat)),
        plain_line("storage_gb"@, decimal(p.storage_gb as nat)),
        plain_line("gpu"@, bool_text(p.has_gpu)),
        plain_line("npu"@, bool_text(p.has_npu)),
        seq![],
        "[vision]"@,
        plain_line("rgb_cameras"@, decimal(p.rgb_cameras as nat)),
        plain_line("depth_cameras"@, decimal(p.depth_cameras as nat)),
        seq![],
        "[sensing]"@,
        plain_line("imu"@, bool_text(p.imu)),
        plain_line("lidar"@, bool_text(p.lidar)),
        plain_line("proximity"@, decimal(p.range_sensors as nat)),
        seq![],
        "[mobility]"@,
        plain_line("motors"@, decimal(p.motors as nat)),
        plain_line("servos"@, decimal(p.servos as nat)),
        seq![],
        "[manipulation]"@,
        plain_line("arms"@, decimal(p.arms as nat)),
        plain_line("grippers"@, decimal(p.grippers as nat)),
        seq![],
        "[connectivity]"@,
        plain_line("network"@, bool_text(p.network_connected))
    ]
}

/// The manifest text of a profile.
pub open spec fn manifest_text(p: ProfileView) -> Seq<char> {
    join_lines(manifest_lines(p))
}

/// Appends the `k`-th manifest line of `p`, and a newline, to `out`.
fn emit(out: &mut String, line: &String, Ghost(p): Ghost<ProfileView>, Ghost(k): Ghost<int>)
    requires
        0 <= k < manifest_lines(p).len(),
        line@ == manifest_lines(p)[k],
        old(out)@ == join_lines(manifest_lines(p).take(k)),
    ensures
        final(out)@ == join_lines(manifest_lines(p).take(k + 1)),
{
    push_str(out, line.as_str());
    push_char(out, '\n');
    proof {
        let ls = manifest_lines(p);
        assert(ls.take(k + 1).drop_last() =~= ls.take(k));
        assert(ls.take(k + 1).last() == ls[k]);
        assert(out@ =~= join_lines(ls.take(k + 1)));
    }
}

fn quoted(key: &str, value: &String) -> (l: String)
    ensures
        l@ == quoted_line(key@, value@),
{
    let mut l = String::new();
    push_str(&mut l, key);
    push_str(&mut l, " = \"");
    push_str(&mut l, value.as_str());
    push_str(&mut l, "\"");
    proof {
        assert(l@ =~= quoted_line(key@, value@));
    }
    l
}

fn numbered(key: &str, value: u128) -> (l: String)
    ensures
        l@ == plain_line(key@, decimal(value as nat)),
{
    let mut l = String::new();
    push_str(&mut l, key);
    push_str(&mut l, " = ");
    push_decimal(&mut l, value);
    proof {
        assert(l@ =~= plain_line(key@, decimal(value as nat)));
    }
    l
}

fn flagged(key: &str, value: bool) -> (l: String)
    ensures
        l@ == plain_line(key@, bool_text(value)),
{
    let mut l = String::new();
    push_str(&mut l, key);
    push_str(&mut l, " = ");
    push_bool(&mut l, value);
    proof {
        assert(l@ =~= plain_line(key@, bool_text(value)));
    }
    l
}

fn literal_line(text: &str) -> (l: String)
    ensures
        l@ == text@,
{
    let mut l = String::new();
    push_str(&mut l, text);
    proof {
        assert(l@ =~= text@);
    }
    l
}

/// One step of reading a manifest: the current section and the profile so far.
pub struct ManifestState {
    pub section: Seq<char>,
    pub profile: ProfileView,
}

/// `invalid value for KEY: VALUE`.
pub open spec fn invalid_value(key: Seq<char>, value: Seq<char>) -> Seq<char> {
    "invalid value for "@ + key + ": "@ + value
}

/// Applies `key = value` in `section` to a profile.
pub open spec fn assign_spec(p: ProfileView, section: Seq<char>, key: Seq<char>, value: Seq<char>) -> Result<ProfileView, Seq<char>> {
    let bad = invalid_value(key, value);
    if section == "robot"@ && key == "name"@ {
        Ok(ProfileView { name: value, ..p })
    } else if section == "robot"@ && key == "type"@ {
        Ok(ProfileView { robot_type: value, ..p })
    } else if section == "compute"@ && key == "architecture"@ {
        Ok(ProfileView { architecture: value, ..p })
    } else if section == "compute"@ && key == "cores"@ {
        match parse_unsigned(value, 0xffff) { Some(v) => Ok(ProfileView { cpu_cores: v as u16, ..p }), None => Err(bad) }
    } else if section == "compute"@ && key == "ram_mb"@ {
        match parse_unsigned(value, 0xffff_ffff) { Some(v) => Ok(ProfileView { ram_mb: v as u32, ..p }), None => Err(bad) }
    } else if section == "compute"@ && key == "storage_gb"@ {
        match parse_unsigned(value, 0xffff_ffff) { Some(v) => Ok(ProfileView { storage_gb: v as u32, ..p }), None => Err(bad) }
    } else if section == "compute"@ && key == "gpu"@ {
        match parse_bool(value) { Some(v) => Ok(ProfileView { has_gpu: v, ..p }), None => Err(bad) }
    } else if section == "compute"@ && key == "npu"@ {
        match parse_bool(value) { Some(v) => Ok(ProfileView { has_npu: v, ..p }), None => Err(bad) }
    } else if section == "vision"@ && key == "rgb_cameras"@ {
        match parse_unsigned(value, 0xff) { Some(v) => Ok(ProfileView { rgb_cameras: v as u8, ..p }), None => Err(bad) }
    } else if section == "vision"@ && key == "depth_cameras"@ {
        match parse_unsigned(value, 0xff) { Some(v) => Ok(ProfileView { depth_cameras: v as u8, ..p }), None => Err(bad) }
    } else if section == "sensing"@ && key == "imu"@ {
        match parse_bool(value) { Some(v) => Ok(ProfileView { imu: v, ..p }), None => Err(bad) }
    } else if section == "sensing"@ && key == "lidar"@ {
        match parse_bool(value) { Some(v) => Ok(ProfileView { lidar: v, ..p }), None => Err(bad) }
    } else if section == "sensing"@ && key == "proximity"@ {
        match parse_unsigned(value, 0xff) { Some(v) => Ok(ProfileView { range_sensors: v as u8, ..p }), None => Err(bad) }
    } else if section == "mobility"@ && key == "motors"@ {
        match parse_unsigned(value, 0xff) { Some(v) => Ok(ProfileView { motors: v as u8, ..p }), None => Err(bad) }
    } else if section == "mobility"@ && key == "servos"@ {
        match parse_unsigned(value, 0xff) { Some(v) => Ok(ProfileView { servos: v as u8, ..p }), None => Err(bad) }
    } else if section == "manipulation"@ && key == "arms"@ {
        match parse_unsigned(value, 0xff) { Some(v) => Ok(ProfileView { arms: v as u8, ..p }), None => Err(bad) }
    } else if section == "manipulation"@ && key == "grippers"@ {
        match parse_unsigned(value, 0xff) { Some(v) => Ok(ProfileView { grippers: v as u8, ..p }), None => Err(bad) }
    } else if section == "connectivity"@ && key == "network"@ {
        match parse_bool(value) { Some(v) => Ok(ProfileView { network_connected: v, ..p }), None => Err(bad) }
    } else {
        Ok(p)
    }
}

/// Reads one raw line: blank lines and `#` comments are skipped, `[name]` opens a
/// section, and any other line must be `key = value` (value trimmed, then stripped of
/// surrounding double quotes).
pub open spec fn apply_line(st: ManifestState, raw: Seq<char>) -> Result<ManifestState, Seq<char>> {
    let line = trim(raw);
    if line.len() == 0 || line[0] == '#' {
        Ok(st)
    } else if line[0] == '[' && line.last() == ']' {
        Ok(ManifestState { section: line.subrange(1, line.len() - 1), profile: st.profile })
    } else {
        match split_once(line, '=') {
            None => Err("invalid manifest line: "@ + line),
            Some((k, v)) => match assign_spec(st.profile, st.section, trim(k), trim_char(trim(v), '"')) {
                Ok(p) => Ok(ManifestState { section: st.section, profile: p }),
                Err(e) => Err(e),
            },
        }
    }
}

/// Reads lines in order, stopping at the first error.
pub open spec fn apply_lines(st: ManifestState, ls: Seq<Seq<char>>) -> Result<ManifestState, Seq<char>>
    decreases ls.len(),
{
    if ls.len() == 0 {
        Ok(st)
    } else {
        match apply_line(st, ls[0]) {
            Ok(next) => apply_lines(next, ls.drop_first()),
            Err(e) => Err(e),
        }
    }
}

/// What reading a manifest gives: the minimum robot with the manifest's values applied,
/// or the first error; a manifest that leaves the name empty is refused.
pub open spec fn from_manifest_spec(input: Seq<char>) -> Result<ProfileView, Seq<char>> {
    match apply_lines(ManifestState { section: seq![], profile: minimum_robot_spec() }, lines(input)) {
        Ok(st) => if st.profile.name.len() == 0 {
            Err("[robot].name is required"@)
        } else {
            Ok(st.profile)
        },
        Err(e) => Err(e),
    }
}

fn invalid_value_text(key: &[char], value: &[char]) -> (e: String)
    ensures
        e@ == invalid_value(key@, value@),
{
    let mut e = String::new();
    push_str(&mut e, "invalid value for ");
    push_chars(&mut e, key);
    push_str(&mut e, ": ");
    push_chars(&mut e, value);
    proof {
        assert(e@ =~= invalid_value(key@, value@));
    }
    e
}

fn section_key(section: &[char], key: &[char], s: &str, k: &str) -> (b: bool)
    ensures
        b == (section@ == s@ && key@ == k@),
{
    is_text(section, s) && is_text(key, k)
}

/// Applies one `key = value` assignment to `profile`.
fn assign(profile: &mut HardwareProfile, section: &[char], key: &[char], value: &[char]) -> (r: Result<(), String>)
    ensures
        match assign_spec(old(profile)@, section@, key@, value@) {
            Ok(p) => r is Ok && final(profile)@ == p,
            Err(e) => r matches Err(m) && m@ == e,
        },
{
    if section_key(section, key, "robot", "name") {
        profile.name = string_of(value);
    } else if section_key(section, key, "robot", "type") {
        profile.robot_type = string_of(value);
    } else if section_key(section, key, "compute", "architecture") {
        profile.architecture = string_of(value);
    } else if section_key(section, key, "compute", "cores") {
        match parse_unsigned_exec(value, 0xffff) {
            Some(v) => profile.cpu_cores = v as u16,
            None => return Err(invalid_value_text(key, value)),
        }
    } else if section_key(section, key, "compute", "ram_mb") {
        match parse_unsigned_exec(value, 0xffff_ffff) {
            Some(v) => profile.ram_mb = v as u32,
            None => return Err(invalid_value_text(key, value)),
        }
    } else if section_key(section, key, "compute", "storage_gb") {
        match parse_unsigned_exec(value, 0xffff_ffff) {
            Some(v) => profile.storage_gb = v as u32,
            None => return Err(invalid_value_text(key, value)),
        }
    } else if section_key(section, key, "compute", "gpu") {
        match parse_bool_exec(value) {
            Some(v) => profile.has_gpu = v,
            None => return Err(invalid_value_text(key, value)),
        }
    } else if section_key(section, key, "compute", "npu") {
        match parse_bool_exec(value) {
            Some(v) => profile.has_npu = v,
            None => return Err(invalid_value_text(key, value)),
        }
    } else if section_key(section, key, "vision", "rgb_cameras") {
        match parse_unsigned_exec(value, 0xff) {
            Some(v) => profile.rgb_cameras = v as u8,
            None => return Err(invalid_value_text(key, value)),
        }
    } else if section_key(section, key, "vision", "depth_cameras") {
        match parse_unsigned_exec(value, 0xff) {
            Some(v) => profile.depth_cameras = v as u8,
            None => return Err(invalid_value_text(key, value)),
        }
    } else if section_key(section, key, "sensing", "imu") {
        match parse_bool_exec(value) {
            Some(v) => profile.imu = v,
            None => return Err(invalid_value_text(key, value)),
        }
    } else if section_key(section, key, "sensing", "lidar") {
        match parse_bool_exec(value) {
            Some(v) => profile.lidar = v,
            None => return Err(invalid_value_text(key, value)),
        }
    } else if section_key(section, key, "sensing", "proximity") {
        match parse_unsigned_exec(value, 0xff) {
            Some(v) => profile.range_sensors = v as u8,
            None => return Err(invalid_value_text(key, value)),
        }
    } else if section_key(section, key, "mobility", "motors") {
        match parse_unsigned_exec(value, 0xff) {
            Some(v) => profile.motors = v as u8,
            None => return Err(invalid_value_text(key, value)),
        }
    } else if section_key(section, key, "mobility", "servos") {
        match parse_unsigned_exec(value, 0xff) {
            Some(v) => profile.servos = v as u8,
            None => return Err(invalid_value_text(key, value)),
        }
    } else if section_key(section, key, "manipulation", "arms") {
        match parse_unsigned_exec(value, 0xff) {
            Some(v) => profile.arms = v as u8,
            None => return Err(invalid_value_text(key, value)),
        }
    } else if section_key(section, key, "manipulation", "grippers") {
        match parse_unsigned_exec(value, 0xff) {
            Some(v) => profile.grippers = v as u8,
            None => return Err(invalid_value_text(key, value)),
        }
    } else if section_key(section, key, "connectivity", "network") {
        match parse_bool_exec(value) {
            Some(v) => profile.network_connected = v,
            None => return Err(invalid_value_text(key, value)),
        }
    }
    Ok(())
}

impl HardwareProfile {
    /// Writes the profile as a hardware manifest.
    pub fn to_manifest(&self) -> (m: String)
        ensures
            m@ == manifest_text(self@),
    {
        let mut out = String::new();
        let ghost p = self@;
        proof {
            reveal_strlit("");
            assert(manifest_lines(p).take(0) =~= Seq::<Seq<char>>::empty());
        }
        let l = literal_line("[robot]");
        emit(&mut out, &l, Ghost(p), Ghost(0int));
        let l = quoted("name", &self.name);
        emit(&mut out, &l, Ghost(p), Ghost(1int));
        let l = quoted("type", &self.robot_type);
        emit(&mut out, &l, Ghost(p), Ghost(2int));
        let l = String::new();
        emit(&mut out, &l, Ghost(p), Ghost(3int));
        let l = literal_line("[compute]");
        emit(&mut out, &l, Ghost(p), Ghost(4int));
        let l = quoted("architecture", &self.architecture);
        emit(&mut out, &l, Ghost(p), Ghost(5int));
        let l = numbered("cores", self.cpu_cores as u128);
        emit(&mut out, &l, Ghost(p), Ghost(6int));
        let l = numbered("ram_mb", self.ram_mb as u128);
        emit(&mut out, &l, Ghost(p), Ghost(7int));
        let l = numbered("storage_gb", self.storage_gb as u128);
        emit(&mut out, &l, Ghost(p), Ghost(8int));
        let l = flagged("gpu", self.has_gpu);
        emit(&mut out, &l, Ghost(p), Ghost(9int));
        let l = flagged("npu", self.has_npu);
        emit(&mut out, &l, Ghost(p), Ghost(10int));
        let l = String::new();
        emit(&mut out, &l, Ghost(p), Ghost(11int));
        let l = literal_line("[vision]");
        emit(&mut out, &l, Ghost(p), Ghost(12int));
        let l = numbered("rgb_cameras", self.rgb_cameras as u128);
        emit(&mut out, &l, Ghost(p), Ghost(13int));
        let l = numbered("depth_cameras", self.depth_cameras as u128);
        emit(&mut out, &l, Ghost(p), Ghost(14int));
        let l = String::new();
        emit(&mut out, &l, Ghost(p), Ghost(15int));
        let l = literal_line("[sensing]");
        emit(&mut out, &l, Ghost(p), Ghost(16int));
        let l = flagged("imu", self.imu);
        emit(&mut out, &l, Ghost(p), Ghost(17int));
        let l = flagged("lidar", self.lidar);
        emit(&mut out, &l, Ghost(p), Ghost(18int));
        let l = numbered("proximity", self.range_sensors as u128);
        emit(&mut out, &l, Ghost(p), Ghost(19int));
        let l = String::new();
        emit(&mut out, &l, Ghost(p), Ghost(20int));
        let l = literal_line("[mobility]");
        emit(&mut out, &l, Ghost(p), Ghost(21int));
        let l = numbered("motors", self.motors as u128);
        emit(&mut out, &l, Ghost(p), Ghost(22int));
        let l = numbered("servos", self.servos as u128);
        emit(&mut out, &l, Ghost(p), Ghost(23int));
        let l = String::new();
        emit(&mut out, &l, Ghost(p), Ghost(24int));
        let l = literal_line("[manipulation]");
        emit(&mut out, &l, Ghost(p), Ghost(25int));
        let l = numbered("arms", self.arms as u128);
        emit(&mut out, &l, Ghost(p), Ghost(26int));
        let l = numbered("grippers", self.grippers as u128);
        emit(&mut out, &l, Ghost(p), Ghost(27int));
        let l = String::new();
        emit(&mut out, &l, Ghost(p), Ghost(28int));
        let l = literal_line("[connectivity]");
        emit(&mut out, &l, Ghost(p), Ghost(29int));
        let l = flagged("network", self.network_connected);
        emit(&mut out, &l, Ghost(p), Ghost(30int));
        proof {
            assert(manifest_lines(p).take(31) =~= manifest_lines(p));
        }
        out
    }

    /// Reads a hardware manifest: values missing from it keep those of the minimum robot.
    pub fn from_manifest(input: &str) -> (r: Result<Self, String>)
        ensures
            match from_manifest_spec(input@) {
                Ok(p) => r matches Ok(q) && q@ == p,
                Err(e) => r matches Err(m) && m@ == e,
            },
    {
        let mut profile = Self::minimum_robot();
        let mut section: Vec<char> = Vec::new();
        let cs = chars_of(input);
        let ls = lines_exec(&cs);
        let ghost all = lines(input@);
        let ghost init = ManifestState { section: seq![], profile: minimum_robot_spec() };
        proof {
            assert(all.subrange(0, all.len() as int) =~= all);
        }
        let mut i: usize = 0;
        while i < ls.len()
            invariant
                cs@ == input@,
                all == lines(input@),
                init == (ManifestState { section: seq![], profile: minimum_robot_spec() }),
                ls@.len() == all.len(),
                forall|j: int| 0 <= j < ls@.len() ==> #[trigger] ls@[j]@ == all[j],
                i <= ls@.len(),
                apply_lines(init, all) == apply_lines(
                    ManifestState { section: section@, profile: profile@ },
                    all.subrange(i as int, all.len() as int),
                ),
            decreases ls@.len() - i,
        {
            let ghost st = ManifestState { section: section@, profile: profile@ };
            let ghost rest = all.subrange(i as int, all.len() as int);
            proof {
                assert(rest[0] == all[i as int]);
                assert(rest.drop_first() =~= all.subrange(i + 1, all.len() as int));
            }
            proof {
                assert(ls@[i as int]@ == all[i as int]);
            }
            let line = trim_exec(&ls[i]);
            if line.len() == 0 || line[0] == '#' {
                i = i + 1;
                continue;
            }
            if line[0] == '[' && line[line.len() - 1] == ']' {
                section = slice_chars(&line, 1, line.len() - 1);
                i = i + 1;
                continue;
            }
            match split_once_exec(&line, '=') {
                None => {
                    let mut e = String::new();
                    push_str(&mut e, "invalid manifest line: ");
                    push_chars(&mut e, &line);
                    proof {
                        assert(e@ =~= "invalid manifest line: "@ + line@);
                        assert(apply_line(st, rest[0]) == Err::<ManifestState, Seq<char>>(e@));
                                assert(rest.len() > 0);
                                assert(apply_lines(st, rest) == Err::<ManifestState, Seq<char>>(e@));
                                assert(from_manifest_spec(input@) == Err::<ProfileView, Seq<char>>(e@));
                    }
                    return Err(e);
                },
                Some((k, v)) => {
                    let key = trim_exec(&k);
                    let tv = trim_exec(&v);
                    let value = trim_char_exec(&tv, '"');
                    let outcome = assign(&mut profile, &section, &key, &value);
                    match outcome {
                        Ok(()) => {},
                        Err(e) => {
                            proof {
                                assert(apply_line(st, rest[0]) == Err::<ManifestState, Seq<char>>(e@));
                                assert(rest.len() > 0);
                                assert(apply_lines(st, rest) == Err::<ManifestState, Seq<char>>(e@));
                                assert(from_manifest_spec(input@) == Err::<ProfileView, Seq<char>>(e@));
                            }
                            return Err(e);
                        },
                    }
                },
            }
            i = i + 1;
        }
        proof {
            assert(all.subrange(ls@.len() as int, all.len() as int) =~= Seq::<Seq<char>>::empty());
        }
        if profile.name.as_str().is_empty() {
            let e = literal_line("[robot].name is required");
            return Err(e);
        }
        proof {
            if profile.name@.len() == 0 {
            }
        }
        Ok(profile)
    }
}

// ---------------------------------------------------------------- round trip

/// A character of a manifest key: a lower-case ASCII letter or an underscore.
pub open spec fn key_char(c: char) -> bool {
    ('a' <= c && c <= 'z') || c == '_'
}

/// A manifest key: one or more key characters.
pub open spec fn is_key(k: Seq<char>) -> bool
    decreases k.len(),
{
    if k.len() == 0 {
        false
    } else if k.len() == 1 {
        key_char(k[0])
    } else {
        key_char(k[0]) && is_key(k.drop_first())
    }
}

proof fn lemma_key_chars(k: Seq<char>, i: int)
    requires
        is_key(k),
        0 <= i < k.len(),
    ensures
        key_char(k[i]),
    decreases i,
{
    if i > 0 {
        assert(k.drop_first()[i - 1] == k[i]);
        lemma_key_chars(k.drop_first(), i - 1);
    }
}

/// A character of an unquoted manifest value: an ASCII digit or lower-case letter.
pub open spec fn token_char(c: char) -> bool {
    ('a' <= c && c <= 'z') || ('0' <= c && c <= '9')
}

/// A text that can stand between the quotes of a manifest line and be read back:
/// no line break, and no double quote at either end.
pub open spec fn clean_text(v: Seq<char>) -> bool {
    &&& forall|i: int| 0 <= i < v.len() ==> #[trigger] v[i] != '\n'
    &&& v.len() > 0 ==> v[0] != '"' && v.last() != '"'
}

proof fn lemma_trim_plain(s: Seq<char>)
    requires
        s.len() > 0,
        !is_ws(s[0]),
        !is_ws(s.last()),
    ensures
        trim(s) == s,
{
    assert(trim_start(s) == s);
}

proof fn lemma_trim_one_space(s: Seq<char>)
    requires
        s.len() > 0,
        !is_ws(s[0]),
        !is_ws(s.last()),
    ensures
        trim(seq![' '] + s) == s,
        trim(s + seq![' ']) == s,
{
    let a = seq![' '] + s;
    assert(a.drop_first() =~= s);
    assert(trim_start(s) == s);
    assert(trim_start(a) == s);
    let b = s + seq![' '];
    assert(b.drop_last() =~= s);
    assert(b[0] == s[0]);
    assert(trim_start(b) == b);
    assert(trim_end(b) == trim_end(s));
}

proof fn lemma_split_after_key(key: Seq<char>, rest: Seq<char>)
    requires
        is_key(key),
    ensures
        split_once(key + " = "@ + rest, '=') == Some((key + seq![' '], seq![' '] + rest)),
{
    reveal_strlit(" = ");
    let line = key + " = "@ + rest;
    let k = key.len() as int;
    assert forall|j: int| 0 <= j < k + 1 implies line[j] != '=' by {
        if j < k {
            lemma_key_chars(key, j);
            assert(line[j] == key[j]);
        }
    }
    assert(line[k + 1] == '=');
    lemma_char_pos(line, '=', k + 1);
    assert(line.subrange(0, k + 1) =~= key + seq![' ']);
    assert(line.subrange(k + 2, line.len() as int) =~= seq![' '] + rest);
}

/// Reading back a quoted line assigns the quoted text.
proof fn lemma_read_quoted(st: ManifestState, key: Seq<char>, value: Seq<char>)
    requires
        is_key(key),
        clean_text(value),
    ensures
        apply_line(st, quoted_line(key, value)) == match assign_spec(st.profile, st.section, key, value) {
            Ok(p) => Ok(ManifestState { section: st.section, profile: p }),
            Err(e) => Err(e),
        },
{
    reveal_strlit(" = \"");
    reveal_strlit(" = ");
    reveal_strlit("\"");
    let q = seq!['"'] + value + seq!['"'];
    let line = quoted_line(key, value);
    assert(line =~= key + " = "@ + q);
    lemma_key_chars(key, 0);
    lemma_key_chars(key, key.len() - 1);
    assert(line[0] == key[0]);
    lemma_trim_plain(line);
    lemma_split_after_key(key, q);
    lemma_trim_one_space(key);
    lemma_trim_one_space(q);
    assert(q.drop_first() =~= value + seq!['"']);
    assert(q[0] == '"');
    assert(trim_start_char(q, '"') == trim_start_char(value + seq!['"'], '"'));
    if value.len() == 0 {
        let one = value + seq!['"'];
        assert(one =~= seq!['"']);
        assert(one.drop_first() =~= Seq::<char>::empty());
        assert(trim_start_char(one, '"') == trim_start_char(one.drop_first(), '"'));
        assert(trim_start_char(q, '"') =~= Seq::<char>::empty());
        assert(trim_end_char(Seq::<char>::empty(), '"') =~= Seq::<char>::empty());
    } else {
        let w = value + seq!['"'];
        assert(w[0] == value[0]);
        assert(trim_start_char(w, '"') == w);
        assert(w.last() == '"');
        assert(w.drop_last() =~= value);
        assert(trim_end_char(w, '"') == trim_end_char(value, '"'));
        assert(trim_end_char(value, '"') == value);
    }
    assert(trim_char(q, '"') == value);
}

/// Reading back an unquoted line assigns its value.
proof fn lemma_read_plain(st: ManifestState, key: Seq<char>, value: Seq<char>)
    requires
        is_key(key),
        value.len() > 0,
        forall|i: int| 0 <= i < value.len() ==> token_char(#[trigger] value[i]),
    ensures
        apply_line(st, plain_line(key, value)) == match assign_spec(st.profile, st.section, key, value) {
            Ok(p) => Ok(ManifestState { section: st.section, profile: p }),
            Err(e) => Err(e),
        },
{
    reveal_strlit(" = ");
    let line = plain_line(key, value);
    lemma_key_chars(key, 0);
    lemma_key_chars(key, key.len() - 1);
    assert(token_char(value[0]));
    assert(token_char(value[value.len() - 1]));
    assert(line[0] == key[0]);
    assert(line.last() == value.last());
    lemma_trim_plain(line);
    lemma_split_after_key(key, value);
    lemma_trim_one_space(key);
    lemma_trim_one_space(value);
    assert(trim_start_char(value, '"') == value);
    assert(trim_end_char(value, '"') == value);
}

proof fn lemma_decimal_tokens(n: nat)
    ensures
        decimal(n).len() > 0,
        forall|i: int| 0 <= i < decimal(n).len() ==> token_char(#[trigger] decimal(n)[i]),
{
    lemma_decimal_digits(n);
    assert forall|i: int| 0 <= i < decimal(n).len() implies token_char(#[trigger] decimal(n)[i]) by {
        assert(is_digit(decimal(n)[i]));
    }
}

proof fn lemma_bool_tokens(b: bool)
    ensures
        bool_text(b).len() > 0,
        forall|i: int| 0 <= i < bool_text(b).len() ==> token_char(#[trigger] bool_text(b)[i]),
        parse_bool(bool_text(b)) == Some(b),
{
}

/// Reading back a section header opens that section.
proof fn lemma_read_section(st: ManifestState, header: Seq<char>, name: Seq<char>)
    requires
        header == seq!['['] + name + seq![']'],
    ensures
        apply_line(st, header) == Ok::<ManifestState, Seq<char>>(ManifestState { section: name, profile: st.profile }),
{
    lemma_trim_plain(header);
    assert(header.subrange(1, header.len() - 1) =~= name);
}

proof fn lemma_quoted_line_plain(key: Seq<char>, value: Seq<char>)
    requires
        is_key(key),
        clean_text(value),
    ensures
        plain_line_text(quoted_line(key, value)),
{
    reveal_strlit(" = \"");
    reveal_strlit("\"");
    let l = quoted_line(key, value);
    assert forall|i: int| 0 <= i < l.len() implies #[trigger] l[i] != '\n' by {
        if i < key.len() {
            lemma_key_chars(key, i);
            assert(l[i] == key[i]);
        } else if i >= key.len() + 4 && i < key.len() + 4 + value.len() {
            assert(l[i] == value[i - key.len() - 4]);
        }
    }
}

proof fn lemma_plain_line_plain(key: Seq<char>, value: Seq<char>)
    requires
        is_key(key),
        value.len() > 0,
        forall|i: int| 0 <= i < value.len() ==> token_char(#[trigger] value[i]),
    ensures
        plain_line_text(plain_line(key, value)),
{
    reveal_strlit(" = ");
    let l = plain_line(key, value);
    assert forall|i: int| 0 <= i < l.len() implies #[trigger] l[i] != '\n' by {
        if i < key.len() {
            lemma_key_chars(key, i);
            assert(l[i] == key[i]);
        } else if i >= key.len() + 3 {
            assert(l[i] == value[i - key.len() - 3]);
        }
    }
    assert(l.last() == value[value.len() - 1]);
}

/// Every line of a profile's manifest is a plain line when its texts are clean.
proof fn lemma_manifest_lines_plain(p: ProfileView)
    requires
        clean_text(p.name),
        clean_text(p.robot_type),
        clean_text(p.architecture),
    ensures
        forall|i: int| 0 <= i < manifest_lines(p).len() ==> plain_line_text(#[trigger] manifest_lines(p)[i]),
{
    let ls = manifest_lines(p);
    reveal_strlit("name");
    assert(is_key("name"@)) by { reveal_with_fuel(is_key, 5); }
    reveal_strlit("type");
    assert(is_key("type"@)) by { reveal_with_fuel(is_key, 5); }
    reveal_strlit("architecture");
    assert(is_key("architecture"@)) by { reveal_with_fuel(is_key, 13); }
    reveal_strlit("cores");
    assert(is_key("cores"@)) by { reveal_with_fuel(is_key, 6); }
    reveal_strlit("ram_mb");
    assert(is_key("ram_mb"@)) by { reveal_with_fuel(is_key, 7); }
    reveal_strlit("storage_gb");
    assert(is_key("storage_gb"@)) by { reveal_with_fuel(is_key, 11); }
    reveal_strlit("gpu");
    assert(is_key("gpu"@)) by { reveal_with_fuel(is_key, 4); }
    reveal_strlit("npu");
    assert(is_key("npu"@)) by { reveal_with_fuel(is_key, 4); }
    reveal_strlit("rgb_cameras");
    assert(is_key("rgb_cameras"@)) by { reveal_with_fuel(is_key, 12); }
    reveal_strlit("depth_cameras");
    assert(is_key("depth_cameras"@)) by { reveal_with_fuel(is_key, 14); }
    reveal_strlit("imu");
    assert(is_key("imu"@)) by { reveal_with_fuel(is_key, 4); }
    reveal_strlit("lidar");
    assert(is_key("lidar"@)) by { reveal_with_fuel(is_key, 6); }
    reveal_strlit("proximity");
    assert(is_key("proximity"@)) by { reveal_with_fuel(is_key, 10); }
    reveal_strlit("motors");
    assert(is_key("motors"@)) by { reveal_with_fuel(is_key, 7); }
    reveal_strlit("servos");
    assert(is_key("servos"@)) by { reveal_with_fuel(is_key, 7); }
    reveal_strlit("arms");
    assert(is_key("arms"@)) by { reveal_with_fuel(is_key, 5); }
    reveal_strlit("grippers");
    assert(is_key("grippers"@)) by { reveal_with_fuel(is_key, 9); }
    reveal_strlit("network");
    assert(is_key("network"@)) by { reveal_with_fuel(is_key, 8); }
    reveal_strlit("[robot]");
    reveal_strlit("[compute]");
    reveal_strlit("[vision]");
    reveal_strlit("[sensing]");
    reveal_strlit("[mobility]");
    reveal_strlit("[manipulation]");
    reveal_strlit("[connectivity]");
    assert(plain_line_text(ls[0]));
    lemma_quoted_line_plain("name"@, p.name);
    assert(plain_line_text(ls[1]));
    lemma_quoted_line_plain("type"@, p.robot_type);
    assert(plain_line_text(ls[2]));
    assert(plain_line_text(ls[3]));
    assert(plain_line_text(ls[4]));
    lemma_quoted_line_plain("architecture"@, p.architecture);
    assert(plain_line_text(ls[5]));
    lemma_decimal_tokens(p.cpu_cores as nat);
    lemma_plain_line_plain("cores"@, decimal(p.cpu_cores as nat));
    assert(plain_line_text(ls[6]));
    lemma_decimal_tokens(p.ram_mb as nat);
    lemma_plain_line_plain("ram_mb"@, decimal(p.ram_mb as nat));
    assert(plain_line_text(ls[7]));
    lemma_decimal_tokens(p.storage_gb as nat);
    lemma_plain_line_plain("storage_gb"@, decimal(p.storage_gb as nat));
    assert(plain_line_text(ls[8]));
    lemma_bool_tokens(p.has_gpu);
    lemma_plain_line_plain("gpu"@, bool_text(p.has_gpu));
    assert(plain_line_text(ls[9]));
    lemma_bool_tokens(p.has_npu);
    lemma_plain_line_plain("npu"@, bool_text(p.has_npu));
    assert(plain_line_text(ls[10]));
    assert(plain_line_text(ls[11]));
    assert(plain_line_text(ls[12]));
    lemma_decimal_tokens(p.rgb_cameras as nat);
    lemma_plain_line_plain("rgb_cameras"@, decimal(p.rgb_cameras as nat));
    assert(plain_line_text(ls[13]));
    lemma_decimal_tokens(p.depth_cameras as nat);
    lemma_plain_line_plain("depth_cameras"@, decimal(p.depth_cameras as nat));
    assert(plain_line_text(ls[14]));
    assert(plain_line_text(ls[15]));
    assert(plain_line_text(ls[16]));
    lemma_bool_tokens(p.imu);
    lemma_plain_line_plain("imu"@, bool_text(p.imu));
    assert(plain_line_text(ls[17]));
    lemma_bool_tokens(p.lidar);
    lemma_plain_line_plain("lidar"@, bool_text(p.lidar));
    assert(plain_line_text(ls[18]));
    lemma_decimal_tokens(p.range_sensors as nat);
    lemma_plain_line_plain("proximity"@, decimal(p.range_sensors as nat));
    assert(plain_line_text(ls[19]));
    assert(plain_line_text(ls[20]));
    assert(plain_line_text(ls[21]));
    lemma_decimal_tokens(p.motors as nat);
    lemma_plain_line_plain("motors"@, decimal(p.motors as nat));
    assert(plain_line_text(ls[22]));
    lemma_decimal_tokens(p.servos as nat);
    lemma_plain_line_plain("servos"@, decimal(p.servos as nat));
    assert(plain_line_text(ls[23]));
    assert(plain_line_text(ls[24]));
    assert(plain_line_text(ls[25]));
    lemma_decimal_tokens(p.arms as nat);
    lemma_plain_line_plain("arms"@, decimal(p.arms as nat));
    assert(plain_line_text(ls[26]));
    lemma_decimal_tokens(p.grippers as nat);
    lemma_plain_line_plain("grippers"@, decimal(p.grippers as nat));
    assert(plain_line_text(ls[27]));
    assert(plain_line_text(ls[28]));
    assert(plain_line_text(ls[29]));
    lemma_bool_tokens(p.network_connected);
    lemma_plain_line_plain("network"@, bool_text(p.network_connected));
    assert(plain_line_text(ls[30]));
    assert forall|i: int| 0 <= i < ls.len() implies plain_line_text(#[trigger] ls[i]) by {
        if i == 0 {} else if i == 1 {} else if i == 2 {} else if i == 3 {} else if i == 4 {} else if i == 5 {} else if i == 6 {} else if i == 7 {} else if i == 8 {} else if i == 9 {} else if i == 10 {} else if i == 11 {} else if i == 12 {} else if i == 13 {} else if i == 14 {} else if i == 15 {} else if i == 16 {} else if i == 17 {} else if i == 18 {} else if i == 19 {} else if i == 20 {} else if i == 21 {} else if i == 22 {} else if i == 23 {} else if i == 24 {} else if i == 25 {} else if i == 26 {} else if i == 27 {} else if i == 28 {} else if i == 29 {} else if i == 30 {}
    }
}

proof fn lemma_assign_name(p: ProfileView, v: Seq<char>)
    ensures
        assign_spec(p, "robot"@, "name"@, v) == Ok::<ProfileView, Seq<char>>(ProfileView { name: v, ..p }),
{
    reveal_strlit("name");
    reveal_strlit("robot");

}

proof fn lemma_assign_type(p: ProfileView, v: Seq<char>)
    ensures
        assign_spec(p, "robot"@, "type"@, v) == Ok::<ProfileView, Seq<char>>(ProfileView { robot_type: v, ..p }),
{
    reveal_strlit("name");
    reveal_strlit("robot");
    reveal_strlit("type");
    assert("type"@[0] != "name"@[0]);
}

proof fn lemma_assign_architecture(p: ProfileView, v: Seq<char>)
    ensures
        assign_spec(p, "compute"@, "architecture"@, v) == Ok::<ProfileView, Seq<char>>(ProfileView { architecture: v, ..p }),
{
    reveal_strlit("architecture");
    reveal_strlit("compute");
    reveal_strlit("name");
    reveal_strlit("robot");
    reveal_strlit("type");
    assert("compute"@.len() != "robot"@.len());
}

proof fn lemma_assign_cores(p: ProfileView, v: Seq<char>)
    ensures
        assign_spec(p, "compute"@, "cores"@, v) == match parse_unsigned(v, 0xffff) {
            Some(n) => Ok::<ProfileView, Seq<char>>(ProfileView { cpu_cores: n as u16, ..p }),
            None => Err(invalid_value("cores"@, v)),
        },
{
    reveal_strlit("architecture");
    reveal_strlit("compute");
    reveal_strlit("cores");
    reveal_strlit("name");
    reveal_strlit("robot");
    reveal_strlit("type");
    assert("compute"@.len() != "robot"@.len());
    assert("cores"@.len() != "architecture"@.len());
}

proof fn lemma_assign_ram_mb(p: ProfileView, v: Seq<char>)
    ensures
        assign_spec(p, "compute"@, "ram_mb"@, v) == match parse_unsigned(v, 0xffffffff) {
            Some(n) => Ok::<ProfileView, Seq<char>>(ProfileView { ram_mb: n as u32, ..p }),
            None => Err(invalid_value("ram_mb"@, v)),
        },
{
    reveal_strlit("architecture");
    reveal_strlit("compute");
    reveal_strlit("cores");
    reveal_strlit("name");
    reveal_strlit("ram_mb");
    reveal_strlit("robot");
    reveal_strlit("type");
    assert("compute"@.len() != "robot"@.len());
    assert("ram_mb"@.len() != "architecture"@.len());
    assert("ram_mb"@.len() != "cores"@.len());
}

proof fn lemma_assign_storage_gb(p: ProfileView, v: Seq<char>)
    ensures
        assign_spec(p, "compute"@, "storage_gb"@, v) == match parse_unsigned(v, 0xffffffff) {
            Some(n) => Ok::<ProfileView, Seq<char>>(ProfileView { storage_gb: n as u32, ..p }),
            None => Err(invalid_value("storage_gb"@, v)),
        },
{
    reveal_strlit("architecture");
    reveal_strlit("compute");
    reveal_strlit("cores");
    reveal_strlit("name");
    reveal_strlit("ram_mb");
    reveal_strlit("robot");
    reveal_strlit("storage_gb");
    reveal_strlit("type");
    assert("compute"@.len() != "robot"@.len());
    assert("storage_gb"@.len() != "architecture"@.len());
    assert("storage_gb"@.len() != "cores"@.len());
    assert("storage_gb"@.len() != "ram_mb"@.len());
}

proof fn lemma_assign_gpu(p: ProfileView, v: Seq<char>)
    ensures
        assign_spec(p, "compute"@, "gpu"@, v) == match parse_bool(v) {
            Some(b) => Ok::<ProfileView, Seq<char>>(ProfileView { has_gpu: b, ..p }),
            None => Err(invalid_value("gpu"@, v)),
        },
{
    reveal_strlit("architecture");
    reveal_strlit("compute");
    reveal_strlit("cores");
    reveal_strlit("gpu");
    reveal_strlit("name");
    reveal_strlit("ram_mb");
    reveal_strlit("robot");
    reveal_strlit("storage_gb");
    reveal_strlit("type");
    assert("compute"@.len() != "robot"@.len());
    assert("gpu"@.len() != "architecture"@.len());
    assert("gpu"@.len() != "cores"@.len());
    assert("gpu"@.len() != "ram_mb"@.len());
    assert("gpu"@.len() != "storage_gb"@.len());
}

proof fn lemma_assign_npu(p: ProfileView, v: Seq<char>)
    ensures
        assign_spec(p, "compute"@, "npu"@, v) == match parse_bool(v) {
            Some(b) => Ok::<ProfileView, Seq<char>>(ProfileView { has_npu: b, ..p }),
            None => Err(invalid_value("npu"@, v)),
        },
{
    reveal_strlit("architecture");
    reveal_strlit("compute");
    reveal_strlit("cores");
    reveal_strlit("gpu");
    reveal_strlit("name");
    reveal_strlit("npu");
    reveal_strlit("ram_mb");
    reveal_strlit("robot");
    reveal_strlit("storage_gb");
    reveal_strlit("type");
    assert("compute"@.len() != "robot"@.len());
    assert("npu"@.len() != "architecture"@.len());
    assert("npu"@.len() != "cores"@.len());
    assert("npu"@.len() != "ram_mb"@.len());
    assert("npu"@.len() != "storage_gb"@.len());
    assert("npu"@[0] != "gpu"@[0]);
}

proof fn lemma_assign_rgb_cameras(p: ProfileView, v: Seq<char>)
    ensures
        assign_spec(p, "vision"@, "rgb_cameras"@, v) == match parse_unsigned(v, 0xff) {
            Some(n) => Ok::<ProfileView, Seq<char>>(ProfileView { rgb_cameras: n as u8, ..p }),
            None => Err(invalid_value("rgb_cameras"@, v)),
        },
{
    reveal_strlit("architecture");
    reveal_strlit("compute");
    reveal_strlit("cores");
    reveal_strlit("gpu");
    reveal_strlit("name");
    reveal_strlit("npu");
    reveal_strlit("ram_mb");
    reveal_strlit("rgb_cameras");
    reveal_strlit("robot");
    reveal_strlit("storage_gb");
    reveal_strlit("type");
    reveal_strlit("vision");
    assert("vision"@.len() != "robot"@.len());
    assert("vision"@.len() != "compute"@.len());
}

proof fn lemma_assign_depth_cameras(p: ProfileView, v: Seq<char>)
    ensures
        assign_spec(p, "vision"@, "depth_cameras"@, v) == match parse_unsigned(v, 0xff) {
            Some(n) => Ok::<ProfileView, Seq<char>>(ProfileView { depth_cameras: n as u8, ..p }),
            None => Err(invalid_value("depth_cameras"@, v)),
        },
{
    reveal_strlit("architecture");
    reveal_strlit("compute");
    reveal_strlit("cores");
    reveal_strlit("depth_cameras");
    reveal_strlit("gpu");
    reveal_strlit("name");
    reveal_strlit("npu");
    reveal_strlit("ram_mb");
    reveal_strlit("rgb_cameras");
    reveal_strlit("robot");
    reveal_strlit("storage_gb");
    reveal_strlit("type");
    reveal_strlit("vision");
    assert("vision"@.len() != "robot"@.len());
    assert("vision"@.len() != "compute"@.len());
    assert("depth_cameras"@.len() != "rgb_cameras"@.len());
}

proof fn lemma_assign_imu(p: ProfileView, v: Seq<char>)
    ensures
        assign_spec(p, "sensing"@, "imu"@, v) == match parse_bool(v) {
            Some(b) => Ok::<ProfileView, Seq<char>>(ProfileView { imu: b, ..p }),
            None => Err(invalid_value("imu"@, v)),
        },
{
    reveal_strlit("architecture");
    reveal_strlit("compute");
    reveal_strlit("cores");
    reveal_strlit("depth_cameras");
    reveal_strlit("gpu");
    reveal_strlit("imu");
    reveal_strlit("name");
    reveal_strlit("npu");
    reveal_strlit("ram_mb");
    reveal_strlit("rgb_cameras");
    reveal_strlit("robot");
    reveal_strlit("sensing");
    reveal_strlit("storage_gb");
    reveal_strlit("type");
    reveal_strlit("vision");
    assert("sensing"@.len() != "robot"@.len());
    assert("sensing"@[0] != "compute"@[0]);
    assert("sensing"@.len() != "vision"@.len());
}

proof fn lemma_assign_lidar(p: ProfileView, v: Seq<char>)
    ensures
        assign_spec(p, "sensing"@, "lidar"@, v) == match parse_bool(v) {
            Some(b) => Ok::<ProfileView, Seq<char>>(ProfileView { lidar: b, ..p }),
            None => Err(invalid_value("lidar"@, v)),
        },
{
    reveal_strlit("architecture");
    reveal_strlit("compute");
    reveal_strlit("cores");
    reveal_strlit("depth_cameras");
    reveal_strlit("gpu");
    reveal_strlit("imu");
    reveal_strlit("lidar");
    reveal_strlit("name");
    reveal_strlit("npu");
    reveal_strlit("ram_mb");
    reveal_strlit("rgb_cameras");
    reveal_strlit("robot");
    reveal_strlit("sensing");
    reveal_strlit("storage_gb");
    reveal_strlit("type");
    reveal_strlit("vision");
    assert("sensing"@.len() != "robot"@.len());
    assert("sensing"@[0] != "compute"@[0]);
    assert("sensing"@.len() != "vision"@.len());
    assert("lidar"@.len() != "imu"@.len());
}

proof fn lemma_assign_proximity(p: ProfileView, v: Seq<char>)
    ensures
        assign_spec(p, "sensing"@, "proximity"@, v) == match parse_unsigned(v, 0xff) {
            Some(n) => Ok::<ProfileView, Seq<char>>(ProfileView { range_sensors: n as u8, ..p }),
            None => Err(invalid_value("proximity"@, v)),
        },
{
    reveal_strlit("architecture");
    reveal_strlit("compute");
    reveal_strlit("cores");
    reveal_strlit("depth_cameras");
    reveal_strlit("gpu");
    reveal_strlit("imu");
    reveal_strlit("lidar");
    reveal_strlit("name");
    reveal_strlit("npu");
    reveal_strlit("proximity");
    reveal_strlit("ram_mb");
    reveal_strlit("rgb_cameras");
    reveal_strlit("robot");
    reveal_strlit("sensing");
    reveal_strlit("storage_gb");
    reveal_strlit("type");
    reveal_strlit("vision");
    assert("sensing"@.len() != "robot"@.len());
    assert("sensing"@[0] != "compute"@[0]);
    assert("sensing"@.len() != "vision"@.len());
    assert("proximity"@.len() != "imu"@.len());
    assert("proximity"@.len() != "lidar"@.len());
}

proof fn lemma_assign_motors(p: ProfileView, v: Seq<char>)
    ensures
        assign_spec(p, "mobility"@, "motors"@, v) == match parse_unsigned(v, 0xff) {
            Some(n) => Ok::<ProfileView, Seq<char>>(ProfileView { motors: n as u8, ..p }),
            None => Err(invalid_value("motors"@, v)),
        },
{
    reveal_strlit("architecture");
    reveal_strlit("compute");
    reveal_strlit("cores");
    reveal_strlit("depth_cameras");
    reveal_strlit("gpu");
    reveal_strlit("imu");
    reveal_strlit("lidar");
    reveal_strlit("mobility");
    reveal_strlit("motors");
    reveal_strlit("name");
    reveal_strlit("npu");
    reveal_strlit("proximity");
    reveal_strlit("ram_mb");
    reveal_strlit("rgb_cameras");
    reveal_strlit("robot");
    reveal_strlit("sensing");
    reveal_strlit("storage_gb");
    reveal_strlit("type");
    reveal_strlit("vision");
    assert("mobility"@.len() != "robot"@.len());
    assert("mobility"@.len() != "compute"@.len());
    assert("mobility"@.len() != "vision"@.len());
    assert("mobility"@.len() != "sensing"@.len());
}

proof fn lemma_assign_servos(p: ProfileView, v: Seq<char>)
    ensures
        assign_spec(p, "mobility"@, "servos"@, v) == match parse_unsigned(v, 0xff) {
            Some(n) => Ok::<ProfileView, Seq<char>>(ProfileView { servos: n as u8, ..p }),
            None => Err(invalid_value("servos"@, v)),
        },
{
    reveal_strlit("architecture");
    reveal_strlit("compute");
    reveal_strlit("cores");
    reveal_strlit("depth_cameras");
    reveal_strlit("gpu");
    reveal_strlit("imu");
    reveal_strlit("lidar");
    reveal_strlit("mobility");
    reveal_strlit("motors");
    reveal_strlit("name");
    reveal_strlit("npu");
    reveal_strlit("proximity");
    reveal_strlit("ram_mb");
    reveal_strlit("rgb_cameras");
    reveal_strlit("robot");
    reveal_strlit("sensing");
    reveal_strlit("servos");
    reveal_strlit("storage_gb");
    reveal_strlit("type");
    reveal_strlit("vision");
    assert("mobility"@.len() != "robot"@.len());
    assert("mobility"@.len() != "compute"@.len());
    assert("mobility"@.len() != "vision"@.len());
    assert("mobility"@.len() != "sensing"@.len());
    assert("servos"@[0] != "motors"@[0]);
}

proof fn lemma_assign_arms(p: ProfileView, v: Seq<char>)
    ensures
        assign_spec(p, "manipulation"@, "arms"@, v) == match parse_unsigned(v, 0xff) {
            Some(n) => Ok::<ProfileView, Seq<char>>(ProfileView { arms: n as u8, ..p }),
            None => Err(invalid_value("arms"@, v)),
        },
{
    reveal_strlit("architecture");
    reveal_strlit("arms");
    reveal_strlit("compute");
    reveal_strlit("cores");
    reveal_strlit("depth_cameras");
    reveal_strlit("gpu");
    reveal_strlit("imu");
    reveal_strlit("lidar");
    reveal_strlit("manipulation");
    reveal_strlit("mobility");
    reveal_strlit("motors");
    reveal_strlit("name");
    reveal_strlit("npu");
    reveal_strlit("proximity");
    reveal_strlit("ram_mb");
    reveal_strlit("rgb_cameras");
    reveal_strlit("robot");
    reveal_strlit("sensing");
    reveal_strlit("servos");
    reveal_strlit("storage_gb");
    reveal_strlit("type");
    reveal_strlit("vision");
    assert("manipulation"@.len() != "robot"@.len());
    assert("manipulation"@.len() != "compute"@.len());
    assert("manipulation"@.len() != "vision"@.len());
    assert("manipulation"@.len() != "sensing"@.len());
    assert("manipulation"@.len() != "mobility"@.len());
}

proof fn lemma_assign_grippers(p: ProfileView, v: Seq<char>)
    ensures
        assign_spec(p, "manipulation"@, "grippers"@, v) == match parse_unsigned(v, 0xff) {
            Some(n) => Ok::<ProfileView, Seq<char>>(ProfileView { grippers: n as u8, ..p }),
            None => Err(invalid_value("grippers"@, v)),
        },
{
    reveal_strlit("architecture");
    reveal_strlit("arms");
    reveal_strlit("compute");
    reveal_strlit("cores");
    reveal_strlit("depth_cameras");
    reveal_strlit("gpu");
    reveal_strlit("grippers");
    reveal_strlit("imu");
    reveal_strlit("lidar");
    reveal_strlit("manipulation");
    reveal_strlit("mobility");
    reveal_strlit("motors");
    reveal_strlit("name");
    reveal_strlit("npu");
    reveal_strlit("proximity");
    reveal_strlit("ram_mb");
    reveal_strlit("rgb_cameras");
    reveal_strlit("robot");
    reveal_strlit("sensing");
    reveal_strlit("servos");
    reveal_strlit("storage_gb");
    reveal_strlit("type");
    reveal_strlit("vision");
    assert("manipulation"@.len() != "robot"@.len());
    assert("manipulation"@.len() != "compute"@.len());
    assert("manipulation"@.len() != "vision"@.len());
    assert("manipulation"@.len() != "sensing"@.len());
    assert("manipulation"@.len() != "mobility"@.len());
    assert("grippers"@.len() != "arms"@.len());
}

proof fn lemma_assign_network(p: ProfileView, v: Seq<char>)
    ensures
        assign_spec(p, "connectivity"@, "network"@, v) == match parse_bool(v) {
            Some(b) => Ok::<ProfileView, Seq<char>>(ProfileView { network_connected: b, ..p }),
            None => Err(invalid_value("network"@, v)),
        },
{
    reveal_strlit("architecture");
    reveal_strlit("arms");
    reveal_strlit("compute");
    reveal_strlit("connectivity");
    reveal_strlit("cores");
    reveal_strlit("depth_cameras");
    reveal_strlit("gpu");
    reveal_strlit("grippers");
    reveal_strlit("imu");
    reveal_strlit("lidar");
    reveal_strlit("manipulation");
    reveal_strlit("mobility");
    reveal_strlit("motors");
    reveal_strlit("name");
    reveal_strlit("network");
    reveal_strlit("npu");
    reveal_strlit("proximity");
    reveal_strlit("ram_mb");
    reveal_strlit("rgb_cameras");
    reveal_strlit("robot");
    reveal_strlit("sensing");
    reveal_strlit("servos");
    reveal_strlit("storage_gb");
    reveal_strlit("type");
    reveal_strlit("vision");
    assert("connectivity"@.len() != "robot"@.len());
    assert("connectivity"@.len() != "compute"@.len());
    assert("connectivity"@.len() != "vision"@.len());
    assert("connectivity"@.len() != "sensing"@.len());
    assert("connectivity"@.len() != "mobility"@.len());
    assert("connectivity"@[0] != "manipulation"@[0]);
}

/// The profile a manifest round trip gives back: the manifest's fields of `p`, and
/// the fields the manifest does not carry from the minimum robot.
pub open spec fn round_tripped(p: ProfileView) -> ProfileView {
    let m = minimum_robot_spec();
    ProfileView { battery_percent: m.battery_percent, speakers: m.speakers, screen: m.screen, lights: m.lights, ..p }
}

spec fn rt_section(i: int) -> Seq<char> {
    if i > 29 {
        "connectivity"@
    } else if i > 25 {
        "manipulation"@
    } else if i > 21 {
        "mobility"@
    } else if i > 16 {
        "sensing"@
    } else if i > 12 {
        "vision"@
    } else if i > 4 {
        "compute"@
    } else if i > 0 {
        "robot"@
    } else {
        seq![]
    }
}

spec fn rt_profile(p: ProfileView, i: int) -> ProfileView {
    let m = minimum_robot_spec();
    ProfileView {
        name: if i > 1 { p.name } else { m.name },
        robot_type: if i > 2 { p.robot_type } else { m.robot_type },
        architecture: if i > 5 { p.architecture } else { m.architecture },
        cpu_cores: if i > 6 { p.cpu_cores } else { m.cpu_cores },
        ram_mb: if i > 7 { p.ram_mb } else { m.ram_mb },
        storage_gb: if i > 8 { p.storage_gb } else { m.storage_gb },
        has_gpu: if i > 9 { p.has_gpu } else { m.has_gpu },
        has_npu: if i > 10 { p.has_npu } else { m.has_npu },
        rgb_cameras: if i > 13 { p.rgb_cameras } else { m.rgb_cameras },
        depth_cameras: if i > 14 { p.depth_cameras } else { m.depth_cameras },
        imu: if i > 17 { p.imu } else { m.imu },
        lidar: if i > 18 { p.lidar } else { m.lidar },
        range_sensors: if i > 19 { p.range_sensors } else { m.range_sensors },
        motors: if i > 22 { p.motors } else { m.motors },
        servos: if i > 23 { p.servos } else { m.servos },
        arms: if i > 26 { p.arms } else { m.arms },
        grippers: if i > 27 { p.grippers } else { m.grippers },
        network_connected: if i > 30 { p.network_connected } else { m.network_connected },
        ..m
    }
}

spec fn rt_state(p: ProfileView, i: int) -> ManifestState {
    ManifestState { section: rt_section(i), profile: rt_profile(p, i) }
}

/// The texts of a profile that a manifest can carry.
pub open spec fn writable_profile(p: ProfileView) -> bool {
    &&& clean_text(p.name)
    &&& clean_text(p.robot_type)
    &&& clean_text(p.architecture)
}

proof fn lemma_rt_steps_robot(p: ProfileView, i: int)
    requires
        0 <= i < 4,
        writable_profile(p),
    ensures
        apply_line(rt_state(p, i), manifest_lines(p)[i]) == Ok::<ManifestState, Seq<char>>(rt_state(p, i + 1)),
{
    let ls = manifest_lines(p);
    if i == 0 {
        reveal_strlit("robot");
        reveal_strlit("[robot]");
        assert("[robot]"@ =~= seq!['['] + "robot"@ + seq![']']);
        lemma_read_section(rt_state(p, 0), ls[0], "robot"@);
    } else if i == 1 {
        reveal_strlit("name");
        assert(is_key("name"@)) by { reveal_with_fuel(is_key, 5); }
        lemma_read_quoted(rt_state(p, 1), "name"@, p.name);
        lemma_assign_name(rt_profile(p, 1), p.name);
    } else if i == 2 {
        reveal_strlit("type");
        assert(is_key("type"@)) by { reveal_with_fuel(is_key, 5); }
        lemma_read_quoted(rt_state(p, 2), "type"@, p.robot_type);
        lemma_assign_type(rt_profile(p, 2), p.robot_type);
    } else if i == 3 {
    }
}

proof fn lemma_rt_steps_compute(p: ProfileView, i: int)
    requires
        4 <= i < 12,
        writable_profile(p),
    ensures
        apply_line(rt_state(p, i), manifest_lines(p)[i]) == Ok::<ManifestState, Seq<char>>(rt_state(p, i + 1)),
{
    let ls = manifest_lines(p);
    if i == 4 {
        reveal_strlit("compute");
        reveal_strlit("[compute]");
        assert("[compute]"@ =~= seq!['['] + "compute"@ + seq![']']);
        lemma_read_section(rt_state(p, 4), ls[4], "compute"@);
    } else if i == 5 {
        reveal_strlit("architecture");
        assert(is_key("architecture"@)) by { reveal_with_fuel(is_key, 13); }
        lemma_read_quoted(rt_state(p, 5), "architecture"@, p.architecture);
        lemma_assign_architecture(rt_profile(p, 5), p.architecture);
    } else if i == 6 {
        reveal_strlit("cores");
        assert(is_key("cores"@)) by { reveal_with_fuel(is_key, 6); }
        lemma_decimal_tokens(p.cpu_cores as nat);
        lemma_parse_decimal(p.cpu_cores as nat, 0xffff);
        lemma_read_plain(rt_state(p, 6), "cores"@, decimal(p.cpu_cores as nat));
        lemma_assign_cores(rt_profile(p, 6), decimal(p.cpu_cores as nat));
    } else if i == 7 {
        reveal_strlit("ram_mb");
        assert(is_key("ram_mb"@)) by { reveal_with_fuel(is_key, 7); }
        lemma_decimal_tokens(p.ram_mb as nat);
        lemma_parse_decimal(p.ram_mb as nat, 0xffffffff);
        lemma_read_plain(rt_state(p, 7), "ram_mb"@, decimal(p.ram_mb as nat));
        lemma_assign_ram_mb(rt_profile(p, 7), decimal(p.ram_mb as nat));
    } else if i == 8 {
        reveal_strlit("storage_gb");
        assert(is_key("storage_gb"@)) by { reveal_with_fuel(is_key, 11); }
        lemma_decimal_tokens(p.storage_gb as nat);
        lemma_parse_decimal(p.storage_gb as nat, 0xffffffff);
        lemma_read_plain(rt_state(p, 8), "storage_gb"@, decimal(p.storage_gb as nat));
        lemma_assign_storage_gb(rt_profile(p, 8), decimal(p.storage_gb as nat));
    } else if i == 9 {
        reveal_strlit("gpu");
        assert(is_key("gpu"@)) by { reveal_with_fuel(is_key, 4); }
        lemma_bool_tokens(p.has_gpu);
        lemma_read_plain(rt_state(p, 9), "gpu"@, bool_text(p.has_gpu));
        lemma_assign_gpu(rt_profile(p, 9), bool_text(p.has_gpu));
    } else if i == 10 {
        reveal_strlit("npu");
        assert(is_key("npu"@)) by { reveal_with_fuel(is_key, 4); }
        lemma_bool_tokens(p.has_npu);
        lemma_read_plain(rt_state(p, 10), "npu"@, bool_text(p.has_npu));
        lemma_assign_npu(rt_profile(p, 10), bool_text(p.has_npu));
    } else if i == 11 {
    }
}

proof fn lemma_rt_steps_vision(p: ProfileView, i: int)
    requires
        12 <= i < 16,
        writable_profile(p),
    ensures
        apply_line(rt_state(p, i), manifest_lines(p)[i]) == Ok::<ManifestState, Seq<char>>(rt_state(p, i + 1)),
{
    let ls = manifest_lines(p);
    if i == 12 {
        reveal_strlit("vision");
        reveal_strlit("[vision]");
        assert("[vision]"@ =~= seq!['['] + "vision"@ + seq![']']);
        lemma_read_section(rt_state(p, 12), ls[12], "vision"@);
    } else if i == 13 {
        reveal_strlit("rgb_cameras");
        assert(is_key("rgb_cameras"@)) by { reveal_with_fuel(is_key, 12); }
        lemma_decimal_tokens(p.rgb_cameras as nat);
        lemma_parse_decimal(p.rgb_cameras as nat, 0xff);
        lemma_read_plain(rt_state(p, 13), "rgb_cameras"@, decimal(p.rgb_cameras as nat));
        lemma_assign_rgb_cameras(rt_profile(p, 13), decimal(p.rgb_cameras as nat));
    } else if i == 14 {
        reveal_strlit("depth_cameras");
        assert(is_key("depth_cameras"@)) by { reveal_with_fuel(is_key, 14); }
        lemma_decimal_tokens(p.depth_cameras as nat);
        lemma_parse_decimal(p.depth_cameras as nat, 0xff);
        lemma_read_plain(rt_state(p, 14), "depth_cameras"@, decimal(p.depth_cameras as nat));
        lemma_assign_depth_cameras(rt_profile(p, 14), decimal(p.depth_cameras as nat));
    } else if i == 15 {
    }
}

proof fn lemma_rt_steps_sensing(p: ProfileView, i: int)
    requires
        16 <= i < 21,
        writable_profile(p),
    ensures
        apply_line(rt_state(p, i), manifest_lines(p)[i]) == Ok::<ManifestState, Seq<char>>(rt_state(p, i + 1)),
{
    let ls = manifest_lines(p);
    if i == 16 {
        reveal_strlit("sensing");
        reveal_strlit("[sensing]");
        assert("[sensing]"@ =~= seq!['['] + "sensing"@ + seq![']']);
        lemma_read_section(rt_state(p, 16), ls[16], "sensing"@);
    } else if i == 17 {
        reveal_strlit("imu");
        assert(is_key("imu"@)) by { reveal_with_fuel(is_key, 4); }
        lemma_bool_tokens(p.imu);
        lemma_read_plain(rt_state(p, 17), "imu"@, bool_text(p.imu));
        lemma_assign_imu(rt_profile(p, 17), bool_text(p.imu));
    } else if i == 18 {
        reveal_strlit("lidar");
        assert(is_key("lidar"@)) by { reveal_with_fuel(is_key, 6); }
        lemma_bool_tokens(p.lidar);
        lemma_read_plain(rt_state(p, 18), "lidar"@, bool_text(p.lidar));
        lemma_assign_lidar(rt_profile(p, 18), bool_text(p.lidar));
    } else if i == 19 {
        reveal_strlit("proximity");
        assert(is_key("proximity"@)) by { reveal_with_fuel(is_key, 10); }
        lemma_decimal_tokens(p.range_sensors as nat);
        lemma_parse_decimal(p.range_sensors as nat, 0xff);
        lemma_read_plain(rt_state(p, 19), "proximity"@, decimal(p.range_sensors as nat));
        lemma_assign_proximity(rt_profile(p, 19), decimal(p.range_sensors as nat));
    } else if i == 20 {
    }
}

proof fn lemma_rt_steps_mobility(p: ProfileView, i: int)
    requires
        21 <= i < 25,
        writable_profile(p),
    ensures
        apply_line(rt_state(p, i), manifest_lines(p)[i]) == Ok::<ManifestState, Seq<char>>(rt_state(p, i + 1)),
{
    let ls = manifest_lines(p);
    if i == 21 {
        reveal_strlit("mobility");
        reveal_strlit("[mobility]");
        assert("[mobility]"@ =~= seq!['['] + "mobility"@ + seq![']']);
        lemma_read_section(rt_state(p, 21), ls[21], "mobility"@);
    } else if i == 22 {
        reveal_strlit("motors");
        assert(is_key("motors"@)) by { reveal_with_fuel(is_key, 7); }
        lemma_decimal_tokens(p.motors as nat);
        lemma_parse_decimal(p.motors as nat, 0xff);
        lemma_read_plain(rt_state(p, 22), "motors"@, decimal(p.motors as nat));
        lemma_assign_motors(rt_profile(p, 22), decimal(p.motors as nat));
    } else if i == 23 {
        reveal_strlit("servos");
        assert(is_key("servos"@)) by { reveal_with_fuel(is_key, 7); }
        lemma_decimal_tokens(p.servos as nat);
        lemma_parse_decimal(p.servos as nat, 0xff);
        lemma_read_plain(rt_state(p, 23), "servos"@, decimal(p.servos as nat));
        lemma_assign_servos(rt_profile(p, 23), decimal(p.servos as nat));
    } else if i == 24 {
    }
}

proof fn lemma_rt_steps_manipulation(p: ProfileView, i: int)
    requires
        25 <= i < 29,
        writable_profile(p),
    ensures
        apply_line(rt_state(p, i), manifest_lines(p)[i]) == Ok::<ManifestState, Seq<char>>(rt_state(p, i + 1)),
{
    let ls = manifest_lines(p);
    if i == 25 {
        reveal_strlit("manipulation");
        reveal_strlit("[manipulation]");
        assert("[manipulation]"@ =~= seq!['['] + "manipulation"@ + seq![']']);
        lemma_read_section(rt_state(p, 25), ls[25], "manipulation"@);
    } else if i == 26 {
        reveal_strlit("arms");
        assert(is_key("arms"@)) by { reveal_with_fuel(is_key, 5); }
        lemma_decimal_tokens(p.arms as nat);
        lemma_parse_decimal(p.arms as nat, 0xff);
        lemma_read_plain(rt_state(p, 26), "arms"@, decimal(p.arms as nat));
        lemma_assign_arms(rt_profile(p, 26), decimal(p.arms as nat));
    } else if i == 27 {
        reveal_strlit("grippers");
        assert(is_key("grippers"@)) by { reveal_with_fuel(is_key, 9); }
        lemma_decimal_tokens(p.grippers as nat);
        lemma_parse_decimal(p.grippers as nat, 0xff);
        lemma_read_plain(rt_state(p, 27), "grippers"@, decimal(p.grippers as nat));
        lemma_assign_grippers(rt_profile(p, 27), decimal(p.grippers as nat));
    } else if i == 28 {
    }
}

proof fn lemma_rt_steps_connectivity(p: ProfileView, i: int)
    requires
        29 <= i < 31,
        writable_profile(p),
    ensures
        apply_line(rt_state(p, i), manifest_lines(p)[i]) == Ok::<ManifestState, Seq<char>>(rt_state(p, i + 1)),
{
    let ls = manifest_lines(p);
    if i == 29 {
        reveal_strlit("connectivity");
        reveal_strlit("[connectivity]");
        assert("[connectivity]"@ =~= seq!['['] + "connectivity"@ + seq![']']);
        lemma_read_section(rt_state(p, 29), ls[29], "connectivity"@);
    } else if i == 30 {
        reveal_strlit("network");
        assert(is_key("network"@)) by { reveal_with_fuel(is_key, 8); }
        lemma_bool_tokens(p.network_connected);
        lemma_read_plain(rt_state(p, 30), "network"@, bool_text(p.network_connected));
        lemma_assign_network(rt_profile(p, 30), bool_text(p.network_connected));
    }
}

proof fn lemma_rt_from(p: ProfileView, i: int)
    requires
        0 <= i <= 31,
        writable_profile(p),
    ensures
        apply_lines(rt_state(p, i), manifest_lines(p).subrange(i, 31)) == Ok::<ManifestState, Seq<char>>(rt_state(p, 31)),
    decreases 31 - i,
{
    let ls = manifest_lines(p);
    if i < 31 {
        if i < 4 {
        lemma_rt_steps_robot(p, i);
    } else if i < 12 {
        lemma_rt_steps_compute(p, i);
    } else if i < 16 {
        lemma_rt_steps_vision(p, i);
    } else if i < 21 {
        lemma_rt_steps_sensing(p, i);
    } else if i < 25 {
        lemma_rt_steps_mobility(p, i);
    } else if i < 29 {
        lemma_rt_steps_manipulation(p, i);
    } else if i < 31 {
        lemma_rt_steps_connectivity(p, i);
    }
        lemma_rt_from(p, i + 1);
        assert(ls.subrange(i, 31)[0] == ls[i]);
        assert(ls.subrange(i, 31).drop_first() =~= ls.subrange(i + 1, 31));
    } else {
        assert(ls.subrange(31, 31) =~= Seq::<Seq<char>>::empty());
    }
}

/// Reading back the manifest written for a profile gives the profile again, for
/// every field the manifest carries, when its name is not empty and its texts hold
/// no line break and no double quote at either end.
pub proof fn law_manifest_round_trip(p: ProfileView)
    requires
        p.name.len() > 0,
        writable_profile(p),
    ensures
        from_manifest_spec(manifest_text(p)) == Ok::<ProfileView, Seq<char>>(round_tripped(p)),
{
    let ls = manifest_lines(p);
    lemma_manifest_lines_plain(p);
    lemma_lines_of_join(ls);
    lemma_rt_from(p, 0);
    assert(ls.subrange(0, 31) =~= ls);
    assert(rt_state(p, 0) == ManifestState { section: seq![], profile: minimum_robot_spec() });
    assert(rt_profile(p, 31) =~= round_tripped(p));
}
} // verus!
