//! The adapter SDK: package skeletons for vendor and community adapter authors.
use vstd::prelude::*;
use crate::package::{field_value, list_items, nexus_value, type_named, PackageType};
use crate::text::{contains_text, occurs_at};
use crate::text::{
    is_ws, join_lines, lemma_lines_of_join, lines, plain_line_text, push_str, starts_with, strs, trim,
    trim_end, trim_start,
};

verus! {

/// One `  - item` line per capability.
pub open spec fn capability_lines(caps: Seq<Seq<char>>) -> Seq<char>
    decreases caps.len(),
{
    if caps.len() == 0 {
        Seq::empty()
    } else {
        capability_lines(caps.drop_last()) + "  - "@ + caps.last() + "\n"@
    }
}

/// The package skeleton of an adapter: its name, transport and capabilities, and
/// telemetry read access as its only permission.
pub open spec fn scaffold_text(name: Seq<char>, transport: Seq<char>, caps: Seq<Seq<char>>) -> Seq<char> {
    "package:\n  name: "@ + name + "\n  version: 0.1.0\n  type: adapter\ncompatibility:\n  nexus: \">=2.0\"\nadapter:\n  transport: "@
        + transport + "\ncapabilities:\n"@ + capability_lines(caps) + "permissions:\n  - telemetry.read\n"@
}

/// Emits a conservative adapter package skeleton. No actuator permission is assumed.
pub fn scaffold(name: &str, transport: &str, capabilities: &[&str]) -> (s: String)
    ensures
        s@ == scaffold_text(name@, transport@, strs(capabilities@)),
{
    let mut s = String::new();
    push_str(&mut s, "package:\n  name: ");
    push_str(&mut s, name);
    push_str(&mut s, "\n  version: 0.1.0\n  type: adapter\ncompatibility:\n  nexus: \">=2.0\"\nadapter:\n  transport: ");
    push_str(&mut s, transport);
    push_str(&mut s, "\ncapabilities:\n");
    let ghost head = s@;
    let mut i: usize = 0;
    proof {
        assert(strs(capabilities@).take(0) =~= Seq::<Seq<char>>::empty());
        assert(s@ =~= head + capability_lines(strs(capabilities@).take(0)));
    }
    while i < capabilities.len()
        invariant
            i <= capabilities@.len(),
            s@ == head + capability_lines(strs(capabilities@).take(i as int)),
        decreases capabilities@.len() - i,
    {
        let ghost caps = strs(capabilities@);
        proof {
            assert(caps.take(i + 1).drop_last() =~= caps.take(i as int));
            assert(caps.take(i + 1).last() == capabilities@[i as int]@);
        }
        push_str(&mut s, "  - ");
        push_str(&mut s, capabilities[i]);
        push_str(&mut s, "\n");
        proof {
            assert(s@ =~= head + capability_lines(caps.take(i + 1)));
        }
        i = i + 1;
    }
    proof {
        assert(strs(capabilities@).take(capabilities@.len() as int) =~= strs(capabilities@));
    }
    push_str(&mut s, "permissions:\n  - telemetry.read\n");
    proof {
        assert(s@ =~= scaffold_text(name@, transport@, strs(capabilities@)));
    }
    s
}


/// A text that stays on one line: no `'\n'` and no `'\r'`.
pub open spec fn single_line(s: Seq<char>) -> bool {
    forall|i: int| 0 <= i < s.len() ==> #[trigger] s[i] != '\n' && s[i] != '\r'
}

/// A capability that reads back from its list line: non-empty, already trimmed, one line.
pub open spec fn readable_item(c: Seq<char>) -> bool {
    c.len() > 0 && trim(c) == c && single_line(c)
}

/// Inputs whose skeleton reads back: a non-empty trimmed one-line name, a one-line
/// transport, and readable capabilities.
pub open spec fn scaffold_input_ok(name: Seq<char>, transport: Seq<char>, caps: Seq<Seq<char>>) -> bool {
    &&& name.len() > 0 && trim(name) == name && single_line(name)
    &&& single_line(transport)
    &&& forall|i: int| 0 <= i < caps.len() ==> readable_item(#[trigger] caps[i])
}

spec fn skeleton_head(name: Seq<char>, transport: Seq<char>) -> Seq<Seq<char>> {
    seq![
        "package:"@,
        "  name: "@ + name,
        "  version: 0.1.0"@,
        "  type: adapter"@,
        "compatibility:"@,
        "  nexus: \">=2.0\""@,
        "adapter:"@,
        "  transport: "@ + transport,
        "capabilities:"@,
    ]
}

spec fn skeleton_items(caps: Seq<Seq<char>>) -> Seq<Seq<char>> {
    caps.map_values(|c: Seq<char>| "  - "@ + c)
}

spec fn skeleton_tail() -> Seq<Seq<char>> {
    seq!["permissions:"@, "  - telemetry.read"@]
}

spec fn skeleton_lines(name: Seq<char>, transport: Seq<char>, caps: Seq<Seq<char>>) -> Seq<Seq<char>> {
    skeleton_head(name, transport) + skeleton_items(caps) + skeleton_tail()
}

spec fn spaces(pad: Seq<char>) -> bool {
    forall|i: int| 0 <= i < pad.len() ==> #[trigger] pad[i] == ' '
}

proof fn lemma_trim_start_len(s: Seq<char>)
    ensures
        trim_start(s).len() <= s.len(),
    decreases s.len(),
{
    if s.len() > 0 && is_ws(s[0]) {
        lemma_trim_start_len(s.drop_first());
    }
}

proof fn lemma_trim_end_len(s: Seq<char>)
    ensures
        trim_end(s).len() <= s.len(),
    decreases s.len(),
{
    if s.len() > 0 && is_ws(s.last()) {
        lemma_trim_end_len(s.drop_last());
    }
}

proof fn lemma_trimmed_ends(s: Seq<char>)
    requires
        s.len() > 0,
        trim(s) == s,
    ensures
        !is_ws(s[0]),
        !is_ws(s.last()),
{
    if is_ws(s[0]) {
        lemma_trim_start_len(s.drop_first());
        lemma_trim_end_len(trim_start(s));
        assert(false);
    }
    assert(trim_start(s) == s);
    if is_ws(s.last()) {
        lemma_trim_end_len(s.drop_last());
        assert(false);
    }
}

proof fn lemma_trim_start_spaces(pad: Seq<char>, x: Seq<char>)
    requires
        spaces(pad),
        x.len() > 0,
        !is_ws(x[0]),
    ensures
        trim_start(pad + x) == x,
    decreases pad.len(),
{
    if pad.len() == 0 {
        assert(pad + x =~= x);
    } else {
        assert((pad + x)[0] == ' ');
        assert((pad + x).drop_first() =~= pad.drop_first() + x);
        lemma_trim_start_spaces(pad.drop_first(), x);
    }
}

/// Trimming a padded text whose ends are not whitespace gives the text.
proof fn lemma_trim_padded(pad: Seq<char>, x: Seq<char>)
    requires
        spaces(pad),
        x.len() > 0,
        !is_ws(x[0]),
        !is_ws(x.last()),
    ensures
        trim(pad + x) == x,
{
    lemma_trim_start_spaces(pad, x);
}

proof fn lemma_trim_end_keeps(x: Seq<char>, m: int)
    requires
        0 < m <= x.len(),
        !is_ws(x[m - 1]),
    ensures
        trim_end(x).len() >= m,
        trim_end(x).subrange(0, m) == x.subrange(0, m),
    decreases x.len(),
{
    if x.len() > 0 && is_ws(x.last()) {
        assert(x.drop_last()[m - 1] == x[m - 1]);
        lemma_trim_end_keeps(x.drop_last(), m);
        assert(x.drop_last().subrange(0, m) =~= x.subrange(0, m));
    }
}

/// Trimming a padded line keeps a leading core whose ends are not whitespace.
proof fn lemma_trim_keeps_core(pad: Seq<char>, core: Seq<char>, rest: Seq<char>)
    requires
        spaces(pad),
        core.len() > 0,
        !is_ws(core[0]),
        !is_ws(core.last()),
    ensures
        trim(pad + core + rest).len() >= core.len(),
        trim(pad + core + rest).subrange(0, core.len() as int) == core,
{
    let x = core + rest;
    assert(pad + core + rest =~= pad + x);
    lemma_trim_start_spaces(pad, x);
    assert(x[core.len() - 1] == core.last());
    lemma_trim_end_keeps(x, core.len() as int);
    assert(x.subrange(0, core.len() as int) =~= core);
}

proof fn lemma_field_found(ls: Seq<Seq<char>>, key: Seq<char>, k: int)
    requires
        0 <= k < ls.len(),
        forall|j: int| 0 <= j < k ==> !starts_with(trim(#[trigger] ls[j]), key + seq![':']),
        starts_with(trim(ls[k]), key + seq![':']),
    ensures
        field_value(ls, key) == field_value(seq![ls[k]], key),
    decreases k,
{
    if k > 0 {
        let d = ls.drop_first();
        assert forall|j: int| 0 <= j < k - 1 implies !starts_with(trim(#[trigger] d[j]), key + seq![':']) by {
            assert(d[j] == ls[j + 1]);
        }
        assert(d[k - 1] == ls[k]);
        assert(!starts_with(trim(ls[0]), key + seq![':']));
        lemma_field_found(d, key, k - 1);
    }
}

proof fn lemma_field_absent(ls: Seq<Seq<char>>, key: Seq<char>)
    requires
        forall|j: int| 0 <= j < ls.len() ==> !starts_with(trim(#[trigger] ls[j]), key + seq![':']),
    ensures
        field_value(ls, key) is None,
    decreases ls.len(),
{
    if ls.len() > 0 {
        let d = ls.drop_first();
        assert forall|j: int| 0 <= j < d.len() implies !starts_with(trim(#[trigger] d[j]), key + seq![':']) by {
            assert(d[j] == ls[j + 1]);
        }
        assert(!starts_with(trim(ls[0]), key + seq![':']));
        lemma_field_absent(d, key);
    }
}

proof fn lemma_list_items_append(a: Seq<Seq<char>>, b: Seq<Seq<char>>)
    ensures
        list_items(a + b) == list_items(a) + list_items(b),
    decreases b.len(),
{
    if b.len() == 0 {
        assert(a + b =~= a);
        assert(list_items(a) + list_items(b) =~= list_items(a));
    } else {
        assert((a + b).drop_last() =~= a + b.drop_last());
        assert((a + b).last() == b.last());
        lemma_list_items_append(a, b.drop_last());
        assert(list_items(a + b) =~= list_items(a) + list_items(b));
    }
}

proof fn lemma_list_items_none(ls: Seq<Seq<char>>)
    requires
        forall|j: int| 0 <= j < ls.len() ==> !starts_with(trim(#[trigger] ls[j]), "- "@),
    ensures
        list_items(ls) == Seq::<Seq<char>>::empty(),
    decreases ls.len(),
{
    if ls.len() > 0 {
        let d = ls.drop_last();
        assert forall|j: int| 0 <= j < d.len() implies !starts_with(trim(#[trigger] d[j]), "- "@) by {
            assert(d[j] == ls[j]);
        }
        assert(!starts_with(trim(ls[ls.len() - 1]), "- "@));
        lemma_list_items_none(d);
    }
}

proof fn lemma_item_line(c: Seq<char>)
    requires
        readable_item(c),
    ensures
        trim("  - "@ + c) == "- "@ + c,
        starts_with("- "@ + c, "- "@),
        ("- "@ + c).subrange(2, ("- "@ + c).len() as int) == c,
        plain_line_text("  - "@ + c),
{
    reveal_strlit("  - ");
    reveal_strlit("- ");
    lemma_trimmed_ends(c);
    let x = "- "@ + c;
    assert("  - "@ + c =~= seq![' ', ' '] + x);
    assert(x.last() == c.last());
    lemma_trim_padded(seq![' ', ' '], x);
    assert(x.subrange(0, 2) =~= "- "@);
    assert(x.subrange(2, x.len() as int) =~= c);
    let l = "  - "@ + c;
    assert forall|i: int| 0 <= i < l.len() implies #[trigger] l[i] != '\n' by {
        if i >= 4 {
            assert(l[i] == c[i - 4]);
        }
    }
    assert(l.last() == c.last());
}

proof fn lemma_items_parse(caps: Seq<Seq<char>>)
    requires
        forall|i: int| 0 <= i < caps.len() ==> readable_item(#[trigger] caps[i]),
    ensures
        list_items(skeleton_items(caps)) == caps,
        forall|j: int| 0 <= j < caps.len() ==> plain_line_text(#[trigger] skeleton_items(caps)[j]),
        forall|j: int| 0 <= j < caps.len() ==> #[trigger] skeleton_items(caps)[j] == "  - "@ + caps[j],
    decreases caps.len(),
{
    let ls = skeleton_items(caps);
    if caps.len() > 0 {
        let pre = caps.drop_last();
        assert forall|i: int| 0 <= i < pre.len() implies readable_item(#[trigger] pre[i]) by {
            assert(pre[i] == caps[i]);
        }
        lemma_items_parse(pre);
        assert(ls.drop_last() =~= skeleton_items(pre));
        lemma_item_line(caps.last());
        let x = "- "@ + caps.last();
        assert(ls.last() == "  - "@ + caps.last());
        assert(list_items(ls) =~= caps);
        assert forall|j: int| 0 <= j < caps.len() implies plain_line_text(#[trigger] skeleton_items(caps)[j]) by {
            if j < pre.len() {
                assert(skeleton_items(caps)[j] == skeleton_items(pre)[j]);
            }
        }
    } else {
        assert(list_items(ls) =~= caps);
    }
}

proof fn lemma_join_lines_append(a: Seq<Seq<char>>, b: Seq<Seq<char>>)
    ensures
        join_lines(a + b) == join_lines(a) + join_lines(b),
    decreases b.len(),
{
    if b.len() == 0 {
        assert(a + b =~= a);
        assert(join_lines(a) + join_lines(b) =~= join_lines(a));
    } else {
        assert((a + b).drop_last() =~= a + b.drop_last());
        assert((a + b).last() == b.last());
        lemma_join_lines_append(a, b.drop_last());
        assert(join_lines(a + b) =~= join_lines(a) + join_lines(b));
    }
}

proof fn lemma_items_text(caps: Seq<Seq<char>>)
    ensures
        join_lines(skeleton_items(caps)) == capability_lines(caps),
    decreases caps.len(),
{
    reveal_strlit("\n");
    if caps.len() > 0 {
        lemma_items_text(caps.drop_last());
        assert(skeleton_items(caps).drop_last() =~= skeleton_items(caps.drop_last()));
        assert(join_lines(skeleton_items(caps)) =~= capability_lines(caps));
    } else {
        assert(join_lines(skeleton_items(caps)) =~= capability_lines(caps));
    }
}


proof fn lemma_starts_first_two(s: Seq<char>, p: Seq<char>)
    requires
        starts_with(s, p),
        p.len() >= 2,
    ensures
        s[0] == p[0],
        s[1] == p[1],
{
    assert(s.subrange(0, p.len() as int)[0] == s[0]);
    assert(s.subrange(0, p.len() as int)[1] == s[1]);
}

/// The first two characters of the trimmed line `j` of a skeleton with `k` capabilities.
spec fn skeleton_line_head(j: int, k: int) -> (char, char) {
    if j == 0 {
        ('p', 'a')
    } else if j == 1 {
        ('n', 'a')
    } else if j == 2 {
        ('v', 'e')
    } else if j == 3 {
        ('t', 'y')
    } else if j == 4 {
        ('c', 'o')
    } else if j == 5 {
        ('n', 'e')
    } else if j == 6 {
        ('a', 'd')
    } else if j == 7 {
        ('t', 'r')
    } else if j == 8 {
        ('c', 'a')
    } else if j < 9 + k {
        ('-', ' ')
    } else if j == 9 + k {
        ('p', 'e')
    } else {
        ('-', ' ')
    }
}



proof fn lemma_skeleton_text(name: Seq<char>, transport: Seq<char>, caps: Seq<Seq<char>>)
    ensures
        join_lines(skeleton_lines(name, transport, caps)) == scaffold_text(name, transport, caps),
{
    reveal_strlit("package:");
    reveal_strlit("  name: ");
    reveal_strlit("  version: 0.1.0");
    reveal_strlit("  type: adapter");
    reveal_strlit("compatibility:");
    reveal_strlit("  nexus: \">=2.0\"");
    reveal_strlit("adapter:");
    reveal_strlit("  transport: ");
    reveal_strlit("capabilities:");
    reveal_strlit("permissions:");
    reveal_strlit("  - telemetry.read");
    reveal_strlit("package:\n  name: ");
    reveal_strlit("\n  version: 0.1.0\n  type: adapter\ncompatibility:\n  nexus: \">=2.0\"\nadapter:\n  transport: ");
    reveal_strlit("\ncapabilities:\n");
    reveal_strlit("permissions:\n  - telemetry.read\n");
    let head = skeleton_head(name, transport);
    let items = skeleton_items(caps);
    let tail = skeleton_tail();
    reveal_with_fuel(join_lines, 10);
    assert(join_lines(head) =~= "package:\n  name: "@ + name
        + "\n  version: 0.1.0\n  type: adapter\ncompatibility:\n  nexus: \">=2.0\"\nadapter:\n  transport: "@
        + transport + "\ncapabilities:\n"@);
    assert(join_lines(tail) =~= "permissions:\n  - telemetry.read\n"@);
    lemma_join_lines_append(head, items);
    lemma_join_lines_append(head + items, tail);
    lemma_items_text(caps);
    assert(join_lines(skeleton_lines(name, transport, caps)) =~= scaffold_text(name, transport, caps));
}


proof fn lemma_skeleton_lines(name: Seq<char>, transport: Seq<char>, caps: Seq<Seq<char>>)
    requires
        scaffold_input_ok(name, transport, caps),
    ensures
        lines(scaffold_text(name, transport, caps)) == skeleton_lines(name, transport, caps),
        list_items(skeleton_items(caps)) == caps,
        forall|j: int| 0 <= j < caps.len() ==> #[trigger] skeleton_items(caps)[j] == "  - "@ + caps[j],
{
    reveal_strlit("package:");
    reveal_strlit("  name: ");
    reveal_strlit("  version: 0.1.0");
    reveal_strlit("  type: adapter");
    reveal_strlit("compatibility:");
    reveal_strlit("  nexus: \">=2.0\"");
    reveal_strlit("adapter:");
    reveal_strlit("  transport: ");
    reveal_strlit("capabilities:");
    reveal_strlit("permissions:");
    reveal_strlit("  - telemetry.read");
    let head = skeleton_head(name, transport);
    let items = skeleton_items(caps);
    let tail = skeleton_tail();
    let ls = skeleton_lines(name, transport, caps);
    lemma_items_parse(caps);
    let k = caps.len() as int;
    assert forall|j: int| 0 <= j < ls.len() implies plain_line_text(#[trigger] ls[j]) by {
        if j < 9 {
            assert(ls[j] == head[j]);
            if j == 1 {
                let l = head[1];
                assert forall|i: int| 0 <= i < l.len() implies #[trigger] l[i] != '\n' by {
                    if i >= 8 {
                        assert(l[i] == name[i - 8]);
                    }
                }
                assert(l.last() == name.last());
            } else if j == 7 {
                let l = head[7];
                assert forall|i: int| 0 <= i < l.len() implies #[trigger] l[i] != '\n' by {
                    if i >= 13 {
                        assert(l[i] == transport[i - 13]);
                    }
                }
                if transport.len() > 0 {
                    assert(l.last() == transport.last());
                }
            }
        } else if j < 9 + k {
            assert(ls[j] == items[j - 9]);
        } else {
            assert(ls[j] == tail[j - 9 - k]);
        }
    }
    lemma_lines_of_join(ls);
    lemma_skeleton_text(name, transport, caps);
}


proof fn lemma_skeleton_heads(name: Seq<char>, transport: Seq<char>, caps: Seq<Seq<char>>)
    requires
        scaffold_input_ok(name, transport, caps),
    ensures
        ({
            let ls = skeleton_lines(name, transport, caps);
            &&& ls.len() == caps.len() + 11
            &&& forall|j: int| 0 <= j < ls.len() ==> trim(#[trigger] ls[j]).len() >= 2
                && trim(ls[j])[0] == skeleton_line_head(j, caps.len() as int).0
                && trim(ls[j])[1] == skeleton_line_head(j, caps.len() as int).1
            &&& trim(ls[1]) == "name: "@ + name
            &&& trim(ls[2]) == "version: 0.1.0"@
            &&& trim(ls[3]) == "type: adapter"@
            &&& trim(ls[5]) == "nexus: \">=2.0\""@
            &&& trim(ls[caps.len() + 10int]) == "- telemetry.read"@
        }),
{
    reveal_strlit("package:");
    reveal_strlit("  name: ");
    reveal_strlit("  version: 0.1.0");
    reveal_strlit("  type: adapter");
    reveal_strlit("compatibility:");
    reveal_strlit("  nexus: \">=2.0\"");
    reveal_strlit("adapter:");
    reveal_strlit("  transport: ");
    reveal_strlit("capabilities:");
    reveal_strlit("permissions:");
    reveal_strlit("  - telemetry.read");
    reveal_strlit("name: ");
    reveal_strlit("version: 0.1.0");
    reveal_strlit("type: adapter");
    reveal_strlit("nexus: \">=2.0\"");
    reveal_strlit("- telemetry.read");
    reveal_strlit("transport:");
    lemma_trimmed_ends(name);
    let head = skeleton_head(name, transport);
    let items = skeleton_items(caps);
    let tail = skeleton_tail();
    let ls = skeleton_lines(name, transport, caps);
    lemma_items_parse(caps);
    let k = caps.len() as int;
    let pad = seq![' ', ' '];
    let none = Seq::<char>::empty();
    assert(spaces(pad));
    assert(spaces(none));
    assert(ls[1] == head[1]);
    assert(head[1] =~= pad + ("name: "@ + name));
    assert(("name: "@ + name).last() == name.last());
    lemma_trim_padded(pad, "name: "@ + name);
    assert(ls[2] == head[2]);
    assert(head[2] =~= pad + "version: 0.1.0"@);
    lemma_trim_padded(pad, "version: 0.1.0"@);
    assert(ls[3] == head[3]);
    assert(head[3] =~= pad + "type: adapter"@);
    lemma_trim_padded(pad, "type: adapter"@);
    assert(ls[5] == head[5]);
    assert(head[5] =~= pad + "nexus: \">=2.0\""@);
    lemma_trim_padded(pad, "nexus: \">=2.0\""@);
    assert(ls[k + 10] == tail[1]);
    assert(tail[1] =~= pad + "- telemetry.read"@);
    lemma_trim_padded(pad, "- telemetry.read"@);
    assert forall|j: int| 0 <= j < ls.len() implies trim(#[trigger] ls[j]).len() >= 2
        && trim(ls[j])[0] == skeleton_line_head(j, k).0
        && trim(ls[j])[1] == skeleton_line_head(j, k).1 by {
        if j == 0 || j == 4 || j == 6 || j == 8 {
            assert(ls[j] == head[j]);
            assert(head[j] =~= none + head[j]);
            lemma_trim_padded(none, head[j]);
        } else if j == 7 {
            assert(ls[7] == head[7]);
            let rest = seq![' '] + transport;
            assert(head[7] =~= pad + "transport:"@ + rest);
            lemma_trim_keeps_core(pad, "transport:"@, rest);
            let t = trim(head[7]);
            assert(t[0] == t.subrange(0, 10)[0]);
            assert(t[1] == t.subrange(0, 10)[1]);
        } else if 9 <= j < 9 + k {
            assert(ls[j] == items[j - 9]);
            lemma_item_line(caps[j - 9]);
            let t = "- "@ + caps[j - 9];
            reveal_strlit("- ");
            assert(t[0] == '-' && t[1] == ' ');
        } else if j == 9 + k {
            assert(ls[j] == tail[0]);
            assert(tail[0] =~= none + tail[0]);
            lemma_trim_padded(none, tail[0]);
        }
    }
}


/// An adapter skeleton reads back as its package manifest: for a non-empty trimmed
/// one-line name, a one-line transport and non-empty trimmed one-line capabilities,
/// parsing what `scaffold` writes gives that name, version `0.1.0`, the adapter
/// type, compatibility `">=2.0"`, the capabilities followed by `telemetry.read` as
/// components, and no publisher or signature.
pub proof fn law_scaffold_parses_back(name: Seq<char>, transport: Seq<char>, caps: Seq<Seq<char>>)
    requires
        scaffold_input_ok(name, transport, caps),
    ensures
        ({
            let ls = lines(scaffold_text(name, transport, caps));
            &&& field_value(ls, "name"@) == Some(name)
            &&& field_value(ls, "version"@) == Some("0.1.0"@)
            &&& field_value(ls, "type"@) == Some("adapter"@)
            &&& type_named("adapter"@) == Some(PackageType::Adapter)
            &&& nexus_value(ls) == "\">=2.0\""@
            &&& contains_text(nexus_value(ls), seq!['2'])
            &&& list_items(ls) == caps.push("telemetry.read"@)
            &&& field_value(ls, "publisher"@) is None
            &&& field_value(ls, "signature"@) is None
        }),
{
    reveal_strlit("name");
    reveal_strlit("version");
    reveal_strlit("type");
    reveal_strlit("nexus");
    reveal_strlit("publisher");
    reveal_strlit("signature");
    reveal_strlit("- ");
    reveal_strlit("name: ");
    reveal_strlit("version: 0.1.0");
    reveal_strlit("type: adapter");
    reveal_strlit("nexus: \">=2.0\"");
    reveal_strlit("- telemetry.read");
    reveal_strlit("0.1.0");
    reveal_strlit("adapter");
    reveal_strlit("\">=2.0\"");
    reveal_strlit("telemetry.read");
    reveal_strlit("skill");
    lemma_skeleton_lines(name, transport, caps);
    lemma_skeleton_heads(name, transport, caps);
    lemma_trimmed_ends(name);
    let ls = skeleton_lines(name, transport, caps);
    let k = caps.len() as int;
    let one = seq![' '];
    // name
    let pn = "name"@ + seq![':'];
    assert(!starts_with(trim(ls[0]), pn)) by {
        if starts_with(trim(ls[0]), pn) {
            lemma_starts_first_two(trim(ls[0]), pn);
        }
    }
    let tn = trim(ls[1]);
    assert(tn.subrange(0, 5) =~= pn);
    assert(tn.subrange(5, tn.len() as int) =~= one + name);
    lemma_trim_padded(one, name);
    lemma_field_found(ls, "name"@, 1);
    // version
    let pv = "version"@ + seq![':'];
    assert forall|j: int| 0 <= j < 2 implies !starts_with(trim(#[trigger] ls[j]), pv) by {
        if starts_with(trim(ls[j]), pv) {
            lemma_starts_first_two(trim(ls[j]), pv);
        }
    }
    let tv = trim(ls[2]);
    assert(tv.subrange(0, 8) =~= pv);
    assert(tv.subrange(8, tv.len() as int) =~= one + "0.1.0"@);
    lemma_trim_padded(one, "0.1.0"@);
    lemma_field_found(ls, "version"@, 2);
    // type
    let pt = "type"@ + seq![':'];
    assert forall|j: int| 0 <= j < 3 implies !starts_with(trim(#[trigger] ls[j]), pt) by {
        if starts_with(trim(ls[j]), pt) {
            lemma_starts_first_two(trim(ls[j]), pt);
        }
    }
    let tt = trim(ls[3]);
    assert(tt.subrange(0, 5) =~= pt);
    assert(tt.subrange(5, tt.len() as int) =~= one + "adapter"@);
    lemma_trim_padded(one, "adapter"@);
    lemma_field_found(ls, "type"@, 3);
    // nexus
    let px = "nexus"@ + seq![':'];
    assert forall|j: int| 0 <= j < 5 implies !starts_with(trim(#[trigger] ls[j]), px) by {
        if starts_with(trim(ls[j]), px) {
            lemma_starts_first_two(trim(ls[j]), px);
        }
    }
    let tx = trim(ls[5]);
    assert(tx.subrange(0, 6) =~= px);
    assert(tx.subrange(6, tx.len() as int) =~= one + "\">=2.0\""@);
    lemma_trim_padded(one, "\">=2.0\""@);
    lemma_field_found(ls, "nexus"@, 5);
    assert(occurs_at("\">=2.0\""@, seq!['2'], 3)) by {
        assert("\">=2.0\""@.subrange(3, 4) =~= seq!['2']);
    }
    // publisher and signature
    let pp = "publisher"@ + seq![':'];
    assert forall|j: int| 0 <= j < ls.len() implies !starts_with(trim(#[trigger] ls[j]), pp) by {
        if starts_with(trim(ls[j]), pp) {
            lemma_starts_first_two(trim(ls[j]), pp);
        }
    }
    lemma_field_absent(ls, "publisher"@);
    let ps = "signature"@ + seq![':'];
    assert forall|j: int| 0 <= j < ls.len() implies !starts_with(trim(#[trigger] ls[j]), ps) by {
        if starts_with(trim(ls[j]), ps) {
            lemma_starts_first_two(trim(ls[j]), ps);
        }
    }
    lemma_field_absent(ls, "signature"@);
    // components
    let head = skeleton_head(name, transport);
    let tail = skeleton_tail();
    assert forall|j: int| 0 <= j < head.len() implies !starts_with(trim(#[trigger] head[j]), "- "@) by {
        assert(head[j] == ls[j]);
        if starts_with(trim(ls[j]), "- "@) {
            lemma_starts_first_two(trim(ls[j]), "- "@);
        }
    }
    lemma_list_items_none(head);
    assert(tail.drop_last() =~= seq![ls[k + 9]]);
    assert(!starts_with(trim(ls[k + 9]), "- "@)) by {
        if starts_with(trim(ls[k + 9]), "- "@) {
            lemma_starts_first_two(trim(ls[k + 9]), "- "@);
        }
    }
    assert(seq![ls[k + 9]].drop_last() =~= Seq::<Seq<char>>::empty());
    assert(list_items(Seq::<Seq<char>>::empty()) =~= Seq::<Seq<char>>::empty());
    assert(seq![ls[k + 9]].last() == ls[k + 9]);
    assert(list_items(seq![ls[k + 9]]) =~= Seq::<Seq<char>>::empty());
    assert(tail.last() == ls[k + 10]);
    let tl = trim(ls[k + 10]);
    assert(tl.subrange(0, 2) =~= "- "@);
    assert(tl.subrange(2, tl.len() as int) =~= "telemetry.read"@);
    assert(list_items(tail) =~= seq!["telemetry.read"@]);
    lemma_list_items_append(head, skeleton_items(caps));
    lemma_list_items_append(head + skeleton_items(caps), tail);
    assert(list_items(ls) =~= caps.push("telemetry.read"@));
}

} // verus!
