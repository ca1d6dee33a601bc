//! Whether the effects plugin's dependencies are installed, and how to
//! install them on the running distribution.
use vstd::prelude::*;
use vstd::string::*;
use crate::text::{split_on, split_ranges, ranges_denote, strip_prefix, strip_prefix_of, str_is,
    substring, lemma_split_on_nonempty};

verus! {

/// The distribution families the installer knows.
#[derive(Debug, Clone, Copy, PartialEq, Eq, Structural)]
pub enum Distro {
    Arch,
    DebianUbuntu,
    Fedora,
}

/// What a probe of the system found.
#[derive(Debug, Clone)]
pub struct InstallProbe {
    /// Where the carla launcher (or its discovery binary) was found.
    pub carla_path: Option<String>,
    pub lsp_plugins_present: bool,
}

/// How a run of the installer went.
#[derive(Debug, Clone)]
pub struct InstallOutcome {
    pub success: bool,
    /// The last lines of the installer's error output.
    pub stderr_tail: String,
}

impl InstallProbe {
    /// Something is missing: carla was not found or the LSP plugins are absent.
    pub fn needs_install(&self) -> (r: bool)
        ensures
            r == (self.carla_path.is_none() || !self.lsp_plugins_present),
    {
        self.carla_path.is_none() || !self.lsp_plugins_present
    }
}

/// Whether a plugin folder entry belongs to LSP Plugins: in the VST3 folder
/// its name starts with `LSP` or `lsp`; in the LV2 folder it starts with
/// `lsp` or holds `lsp-plugins`.
pub open spec fn lsp_entry_spec(in_vst3_folder: bool, name: Seq<char>) -> bool {
    let starts = |p: Seq<char>| p.len() <= name.len() && name.subrange(0, p.len() as int) == p;
    if in_vst3_folder {
        starts("LSP"@) || starts("lsp"@)
    } else {
        starts("lsp"@) || crate::text::contains_seq(name, "lsp-plugins"@)
    }
}

pub fn is_lsp_entry(in_vst3_folder: bool, name: &str) -> (r: bool)
    ensures
        r == lsp_entry_spec(in_vst3_folder, name@),
{
    proof {
        reveal_strlit("LSP");
        reveal_strlit("lsp");
    }
    let n = name.unicode_len();
    let lower = n >= 3 && crate::text::range_is(name, 0, 3, "lsp");
    if in_vst3_folder {
        let upper = n >= 3 && crate::text::range_is(name, 0, 3, "LSP");
        upper || lower
    } else {
        lower || crate::text::contains_str(name, "lsp-plugins")
    }
}

/// A line without the carriage return that ended it, if any.
pub open spec fn strip_cr(l: Seq<char>) -> Seq<char> {
    if l.len() > 0 && l.last() == '\r' {
        l.drop_last()
    } else {
        l
    }
}

/// The lines of a text as `str::lines` yields them: split at each newline,
/// a carriage return before a newline dropped, and no empty last line.
pub open spec fn lines_spec(s: Seq<char>) -> Seq<Seq<char>> {
    let parts = split_on(s, '\n');
    let n = parts.len();
    let body = Seq::new((n - 1) as nat, |i: int| strip_cr(parts[i]));
    if parts[n - 1].len() == 0 {
        body
    } else {
        body.push(parts[n - 1])
    }
}

/// The text with leading double quotes taken off.
pub open spec fn trim_quotes_front(s: Seq<char>) -> Seq<char>
    decreases s.len(),
{
    if s.len() > 0 && s[0] == '"' {
        trim_quotes_front(s.drop_first())
    } else {
        s
    }
}

/// The text with trailing double quotes taken off.
pub open spec fn trim_quotes_back(s: Seq<char>) -> Seq<char>
    decreases s.len(),
{
    if s.len() > 0 && s.last() == '"' {
        trim_quotes_back(s.drop_last())
    } else {
        s
    }
}

/// The text with double quotes taken off both ends, as `trim_matches('"')`.
pub open spec fn trim_quotes(s: Seq<char>) -> Seq<char> {
    trim_quotes_back(trim_quotes_front(s))
}

/// The last `ID=` and `ID_LIKE=` values of an os-release file's lines.
pub open spec fn scan_release(lines: Seq<Seq<char>>) -> (Seq<char>, Seq<char>)
    decreases lines.len(),
{
    if lines.len() == 0 {
        (Seq::empty(), Seq::empty())
    } else {
        let (id, like) = scan_release(lines.drop_last());
        let l = lines.last();
        match strip_prefix(l, "ID="@) {
            Some(v) => (trim_quotes(v), like),
            None => match strip_prefix(l, "ID_LIKE="@) {
                Some(v) => (id, trim_quotes(v)),
                None => (id, like),
            },
        }
    }
}

pub open spec fn contains_text(s: Seq<char>, needle: Seq<char>) -> bool {
    crate::text::contains_seq(s, needle)
}

/// The family of a distribution from its `ID` and, failing that, `ID_LIKE`.
pub open spec fn distro_of(id: Seq<char>, like: Seq<char>) -> Option<Distro> {
    if id == "arch"@ || id == "manjaro"@ || id == "endeavouros"@ {
        Some(Distro::Arch)
    } else if id == "debian"@ || id == "ubuntu"@ || id == "pop"@ || id == "linuxmint"@ || id == "elementary"@ {
        Some(Distro::DebianUbuntu)
    } else if id == "fedora"@ || id == "rhel"@ || id == "centos"@ || id == "rocky"@ || id == "almalinux"@ {
        Some(Distro::Fedora)
    } else if contains_text(like, "debian"@) {
        Some(Distro::DebianUbuntu)
    } else if contains_text(like, "arch"@) {
        Some(Distro::Arch)
    } else if contains_text(like, "fedora"@) || contains_text(like, "rhel"@) {
        Some(Distro::Fedora)
    } else {
        None
    }
}

pub open spec fn detect_distro_spec(body: Seq<char>) -> Option<Distro> {
    let (id, like) = scan_release(lines_spec(body));
    distro_of(id, like)
}

fn trim_quotes_of(s: &str) -> (r: String)
    ensures
        r@ == trim_quotes(s@),
{
    let n = s.unicode_len();
    let mut a: usize = 0;
    proof {
        assert(s@.subrange(0, n as int) =~= s@);
    }
    while a < n && s.get_char(a) == '"'
        invariant
            n == s@.len(),
            a <= n,
            trim_quotes_front(s@) == trim_quotes_front(s@.subrange(a as int, n as int)),
        decreases n - a,
    {
        proof {
            let t = s@.subrange(a as int, n as int);
            assert(t.drop_first() =~= s@.subrange(a + 1, n as int));
        }
        a = a + 1;
    }
    proof {
        let t = s@.subrange(a as int, n as int);
        assert(trim_quotes_front(t) == t);
    }
    let mut b: usize = n;
    while b > a && s.get_char(b - 1) == '"'
        invariant
            n == s@.len(),
            a <= b <= n,
            trim_quotes_front(s@) == s@.subrange(a as int, n as int),
            trim_quotes(s@) == trim_quotes_back(s@.subrange(a as int, b as int)),
        decreases b - a,
    {
        proof {
            let t = s@.subrange(a as int, b as int);
            assert(t.drop_last() =~= s@.subrange(a as int, b - 1));
        }
        b = b - 1;
    }
    proof {
        let t = s@.subrange(a as int, b as int);
        assert(trim_quotes_back(t) == t);
    }
    substring(s, a, b)
}

fn contains_of(s: &str, needle: &str) -> (r: bool)
    ensures
        r == contains_text(s@, needle@),
{
    crate::text::contains_str(s, needle)
}

/// The lines of a text, as `str::lines` yields them.
pub fn lines_of(text: &str) -> (r: Vec<String>)
    ensures
        r@.map_values(|l: String| l@) == lines_spec(text@),
{
    let ghost s = text@;
    let ranges = split_ranges(text, '\n');
    let ghost parts = split_on(s, '\n');
    proof {
        lemma_split_on_nonempty(s, '\n');
    }
    let n = ranges.len();
    let ghost lines = lines_spec(s);
    let mut out: Vec<String> = Vec::new();
    let mut i: usize = 0;
    while i < n
        invariant
            ranges_denote(s, ranges@, parts),
            parts == split_on(s, '\n'),
            n == ranges@.len(),
            n >= 1,
            lines == lines_spec(s),
            s == text@,
            i <= n,
            lines.len() == n || lines.len() == n - 1,
            lines.len() == n - 1 ==> parts[n - 1].len() == 0,
            lines.len() == n ==> parts[n - 1].len() != 0,
            out@.map_values(|l: String| l@) == lines.take(if i <= lines.len() { i as int } else { lines.len() as int }),
        decreases n - i,
    {
        let (a, b) = ranges[i];
        let last = i + 1 == n;
        let mut end = b;
        if !last && b > a && text.get_char(b - 1) == '\r' {
            end = b - 1;
        }
        proof {
            assert(text@.subrange(a as int, b as int) == parts[i as int]);
        }
        if last && b == a {
            proof {
                assert(lines.len() == i);
            }
            i = i + 1;
        } else {
            let line = substring(text, a, end);
            proof {
                let p = parts[i as int];
                if !last {
                    if b > a && s[b - 1] == '\r' {
                        assert(p.last() == '\r');
                        assert(line@ =~= p.drop_last());
                    } else {
                        assert(line@ =~= p);
                    }
                    assert(line@ == strip_cr(p));
                } else {
                    assert(line@ =~= p);
                }
                assert(lines[i as int] == line@);
            }
            let ghost before = out@;
            out.push(line);
            proof {
                assert(out@.map_values(|l: String| l@) =~= before.map_values(|l: String| l@).push(lines[i as int]));
                assert(lines.take(i as int + 1) =~= lines.take(i as int).push(lines[i as int]));
            }
            i = i + 1;
        }
    }
    proof {
        assert(lines.take(lines.len() as int) =~= lines);
    }
    out
}

/// The distribution family an os-release file names.
pub fn detect_distro(os_release_body: &str) -> (r: Option<Distro>)
    ensures
        r == detect_distro_spec(os_release_body@),
{
    let ghost s = os_release_body@;
    let ranges = split_ranges(os_release_body, '\n');
    let ghost parts = split_on(s, '\n');
    proof {
        lemma_split_on_nonempty(s, '\n');
    }
    let n = ranges.len();
    let ghost lines = lines_spec(s);
    let mut id = String::new();
    let mut like = String::new();
    let mut i: usize = 0;
    proof {
        assert(lines.take(0) =~= Seq::<Seq<char>>::empty());
    }
    while i < n
        invariant
            ranges_denote(s, ranges@, parts),
            parts == split_on(s, '\n'),
            n == ranges@.len(),
            n >= 1,
            lines == lines_spec(s),
            s == os_release_body@,
            i <= n,
            lines.len() == n || lines.len() == n - 1,
            lines.len() == n - 1 ==> parts[n - 1].len() == 0,
            lines.len() == n ==> parts[n - 1].len() != 0,
            (id@, like@) == scan_release(lines.take(if i <= lines.len() { i as int } else { lines.len() as int })),
        decreases n - i,
    {
        let (a, b) = ranges[i];
        let last = i + 1 == n;
        let mut end = b;
        if !last && b > a && os_release_body.get_char(b - 1) == '\r' {
            end = b - 1;
        }
        proof {
            assert(os_release_body@.subrange(a as int, b as int) == parts[i as int]);
        }
        if last && b == a {
            proof {
                assert(lines.len() == i);
                assert(lines.take(i as int) =~= lines);
            }
            i = i + 1;
        } else {
            let line = substring(os_release_body, a, end);
            proof {
                let p = parts[i as int];
                if !last {
                    if b > a && s[b - 1] == '\r' {
                        assert(p.last() == '\r');
                        assert(line@ =~= p.drop_last());
                    } else {
                        assert(line@ =~= p);
                    }
                    assert(line@ == strip_cr(p));
                } else {
                    assert(line@ =~= p);
                }
                assert(lines[i as int] == line@);
                assert(lines.take(i as int + 1).drop_last() =~= lines.take(i as int));
                assert(lines.take(i as int + 1).last() == line@);
                if last {
                    assert(lines.len() == i + 1);
                    assert(lines.take(i as int + 1) =~= lines);
                }
            }
            match strip_prefix_of(line.as_str(), "ID=") {
                Some(v) => {
                    id = trim_quotes_of(v.as_str());
                },
                None => match strip_prefix_of(line.as_str(), "ID_LIKE=") {
                    Some(v) => {
                        like = trim_quotes_of(v.as_str());
                    },
                    None => {},
                },
            }
            i = i + 1;
        }
    }
    proof {
        assert(lines.take(lines.len() as int) =~= lines);
    }
    let i_d = id.as_str();
    if str_is(i_d, "arch") || str_is(i_d, "manjaro") || str_is(i_d, "endeavouros") {
        Some(Distro::Arch)
    } else if str_is(i_d, "debian") || str_is(i_d, "ubuntu") || str_is(i_d, "pop")
        || str_is(i_d, "linuxmint") || str_is(i_d, "elementary") {
        Some(Distro::DebianUbuntu)
    } else if str_is(i_d, "fedora") || str_is(i_d, "rhel") || str_is(i_d, "centos")
        || str_is(i_d, "rocky") || str_is(i_d, "almalinux") {
        Some(Distro::Fedora)
    } else if contains_of(like.as_str(), "debian") {
        Some(Distro::DebianUbuntu)
    } else if contains_of(like.as_str(), "arch") {
        Some(Distro::Arch)
    } else if contains_of(like.as_str(), "fedora") || contains_of(like.as_str(), "rhel") {
        Some(Distro::Fedora)
    } else {
        None
    }
}

pub open spec fn install_command_spec(d: Distro) -> Seq<char> {
    match d {
        Distro::Arch => "pacman -S --noconfirm carla lsp-plugins-vst3"@,
        Distro::DebianUbuntu => "apt-get install -y carla lsp-plugins"@,
        Distro::Fedora => "dnf install -y carla lsp-plugins"@,
    }
}

/// The command that installs carla and the LSP plugins on a distribution.
pub fn install_command(distro: Distro) -> (r: String)
    ensures
        r@ == install_command_spec(distro),
{
    match distro {
        Distro::Arch => "pacman -S --noconfirm carla lsp-plugins-vst3".to_owned(),
        Distro::DebianUbuntu => "apt-get install -y carla lsp-plugins".to_owned(),
        Distro::Fedora => "dnf install -y carla lsp-plugins".to_owned(),
    }
}

/// The last `n` lines of a text (all of them where it has fewer), joined
/// by newlines: the tail of an installer's error output.
pub open spec fn tail_spec(text: Seq<char>, n: nat) -> Seq<char> {
    let ls = lines_spec(text);
    let from = if ls.len() > n { ls.len() - n } else { 0 };
    crate::text::join(ls.subrange(from as int, ls.len() as int), "\n"@)
}

pub fn tail_lines(text: &str, n: usize) -> (r: String)
    ensures
        r@ == tail_spec(text@, n as nat),
{
    let lines = lines_of(text);
    let ghost ls = lines_spec(text@);
    let len = lines.len();
    let from: usize = if len > n { len - n } else { 0 };
    let ghost part = ls.subrange(from as int, len as int);
    let mut r = String::new();
    let mut i: usize = from;
    proof {
        reveal_strlit("\n");
        assert(part.take(0) =~= Seq::<Seq<char>>::empty());
    }
    while i < len
        invariant
            from <= i <= len,
            len == lines@.len(),
            lines@.map_values(|l: String| l@) == ls,
            ls.len() == len,
            part == ls.subrange(from as int, len as int),
            r@ == crate::text::join(part.take(i - from), "\n"@),
        decreases len - i,
    {
        let ghost k = (i - from) as int;
        assert(part.take(k + 1).drop_last() =~= part.take(k));
        assert(part.take(k + 1).last() == lines@[i as int]@);
        if i > from {
            r.append("\n");
        } else {
            assert(part.take(k + 1) =~= seq![lines@[i as int]@]);
        }
        r.append(lines[i].as_str());
        i = i + 1;
    }
    assert(part.take(len - from) =~= part);
    r
}

/// Whether an os-release line sets `ID`.
pub open spec fn sets_id(l: Seq<char>) -> bool {
    l.len() >= 3 && l[0] == 'I' && l[1] == 'D' && l[2] == '='
}

/// Whether line `k` of the os-release text `body` is its last line that
/// sets `ID`, and sets it to `name`, bare or in double quotes.
pub open spec fn last_id_is(body: Seq<char>, k: int, name: Seq<char>, quoted: bool) -> bool {
    let ls = lines_spec(body);
    &&& 0 <= k < ls.len()
    &&& ls[k] == seq!['I', 'D', '='] + (if quoted { seq!['"'] + name + seq!['"'] } else { name })
    &&& forall|j: int| k < j < ls.len() ==> !sets_id(#[trigger] ls[j])
}

/// The `ID` the scan keeps is the value of the last line that sets it.
proof fn lemma_scan_last_id(lines: Seq<Seq<char>>, k: int, v: Seq<char>)
    requires
        0 <= k < lines.len(),
        lines[k] == seq!['I', 'D', '='] + v,
        forall|j: int| k < j < lines.len() ==> !sets_id(#[trigger] lines[j]),
    ensures
        scan_release(lines).0 == trim_quotes(v),
    decreases lines.len(),
{
    reveal_strlit("ID=");
    let l = lines.last();
    if k == lines.len() - 1 {
        assert(l.subrange(0, 3) =~= "ID="@);
        assert(l.subrange(3, l.len() as int) =~= v);
    } else {
        assert(!sets_id(lines[lines.len() - 1]));
        assert(strip_prefix(l, "ID="@) is None) by {
            if 3 <= l.len() && l.subrange(0, 3) == "ID="@ {
                assert(l.subrange(0, 3)[0] == l[0]);
                assert(l.subrange(0, 3)[1] == l[1]);
                assert(l.subrange(0, 3)[2] == l[2]);
            }
        }
        let rest = lines.drop_last();
        assert(rest[k] == lines[k]);
        assert forall|j: int| k < j < rest.len() implies !sets_id(#[trigger] rest[j]) by {
            assert(rest[j] == lines[j]);
        }
        lemma_scan_last_id(rest, k, v);
    }
}

/// A name that neither starts nor ends with a double quote comes out of
/// quote trimming as it went in, bare or in double quotes.
proof fn lemma_trim_name(name: Seq<char>)
    requires
        name.len() > 0,
        name[0] != '"',
        name.last() != '"',
    ensures
        trim_quotes(name) == name,
        trim_quotes(seq!['"'] + name + seq!['"']) == name,
{
    let t = name + seq!['"'];
    let q = seq!['"'] + name + seq!['"'];
    assert(t[0] == name[0]);
    assert(trim_quotes_front(t) == t);
    assert(q[0] == '"');
    assert(q.drop_first() =~= t);
    assert(trim_quotes_front(q) == t);
    assert(t.last() == '"');
    assert(t.drop_last() =~= name);
    assert(trim_quotes_back(name) == name);
    assert(trim_quotes_back(t) == name);
}

/// The `ID` an os-release text's last `ID=` line sets is the one detected.
proof fn lemma_detected_id(body: Seq<char>, k: int, name: Seq<char>, quoted: bool)
    requires
        last_id_is(body, k, name, quoted),
        name.len() > 0,
        name[0] != '"',
        name.last() != '"',
    ensures
        detect_distro_spec(body) == distro_of(name, scan_release(lines_spec(body)).1),
{
    lemma_trim_name(name);
    let v = if quoted { seq!['"'] + name + seq!['"'] } else { name };
    lemma_scan_last_id(lines_spec(body), k, v);
}

/// The `ID` values of the three families.
proof fn lemma_id_names()
    ensures
        "arch"@ == seq!['a', 'r', 'c', 'h'],
        "manjaro"@ == seq!['m', 'a', 'n', 'j', 'a', 'r', 'o'],
        "endeavouros"@ == seq!['e', 'n', 'd', 'e', 'a', 'v', 'o', 'u', 'r', 'o', 's'],
        "debian"@ == seq!['d', 'e', 'b', 'i', 'a', 'n'],
        "ubuntu"@ == seq!['u', 'b', 'u', 'n', 't', 'u'],
        "pop"@ == seq!['p', 'o', 'p'],
        "linuxmint"@ == seq!['l', 'i', 'n', 'u', 'x', 'm', 'i', 'n', 't'],
        "elementary"@ == seq!['e', 'l', 'e', 'm', 'e', 'n', 't', 'a', 'r', 'y'],
        "fedora"@ == seq!['f', 'e', 'd', 'o', 'r', 'a'],
        "rhel"@ == seq!['r', 'h', 'e', 'l'],
        "centos"@ == seq!['c', 'e', 'n', 't', 'o', 's'],
        "rocky"@ == seq!['r', 'o', 'c', 'k', 'y'],
        "almalinux"@ == seq!['a', 'l', 'm', 'a', 'l', 'i', 'n', 'u', 'x'],
{
    reveal_strlit("arch");
    reveal_strlit("manjaro");
    reveal_strlit("endeavouros");
    reveal_strlit("debian");
    reveal_strlit("ubuntu");
    reveal_strlit("pop");
    reveal_strlit("linuxmint");
    reveal_strlit("elementary");
    reveal_strlit("fedora");
    reveal_strlit("rhel");
    reveal_strlit("centos");
    reveal_strlit("rocky");
    reveal_strlit("almalinux");
    assert("arch"@ =~= seq!['a', 'r', 'c', 'h']);
    assert("manjaro"@ =~= seq!['m', 'a', 'n', 'j', 'a', 'r', 'o']);
    assert("endeavouros"@ =~= seq!['e', 'n', 'd', 'e', 'a', 'v', 'o', 'u', 'r', 'o', 's']);
    assert("debian"@ =~= seq!['d', 'e', 'b', 'i', 'a', 'n']);
    assert("ubuntu"@ =~= seq!['u', 'b', 'u', 'n', 't', 'u']);
    assert("pop"@ =~= seq!['p', 'o', 'p']);
    assert("linuxmint"@ =~= seq!['l', 'i', 'n', 'u', 'x', 'm', 'i', 'n', 't']);
    assert("elementary"@ =~= seq!['e', 'l', 'e', 'm', 'e', 'n', 't', 'a', 'r', 'y']);
    assert("fedora"@ =~= seq!['f', 'e', 'd', 'o', 'r', 'a']);
    assert("rhel"@ =~= seq!['r', 'h', 'e', 'l']);
    assert("centos"@ =~= seq!['c', 'e', 'n', 't', 'o', 's']);
    assert("rocky"@ =~= seq!['r', 'o', 'c', 'k', 'y']);
    assert("almalinux"@ =~= seq!['a', 'l', 'm', 'a', 'l', 'i', 'n', 'u', 'x']);
}

/// An os-release text whose last `ID=` line names arch, manjaro or
/// endeavouros (bare or in double quotes) is detected as the Arch family,
/// whatever its `ID_LIKE` says.
pub proof fn law_arch_family_ids(body: Seq<char>, k: int, name: Seq<char>, quoted: bool)
    requires
        name == "arch"@ || name == "manjaro"@ || name == "endeavouros"@,
        last_id_is(body, k, name, quoted),
    ensures
        detect_distro_spec(body) == Some(Distro::Arch),
{
    lemma_id_names();
    lemma_detected_id(body, k, name, quoted);
}

/// An os-release text whose last `ID=` line names debian, ubuntu, pop,
/// linuxmint or elementary (bare or in double quotes) is detected as the
/// Debian/Ubuntu family, whatever its `ID_LIKE` says.
pub proof fn law_debian_family_ids(body: Seq<char>, k: int, name: Seq<char>, quoted: bool)
    requires
        name == "debian"@ || name == "ubuntu"@ || name == "pop"@ || name == "linuxmint"@
            || name == "elementary"@,
        last_id_is(body, k, name, quoted),
    ensures
        detect_distro_spec(body) == Some(Distro::DebianUbuntu),
{
    lemma_id_names();
    lemma_detected_id(body, k, name, quoted);
}

/// An os-release text whose last `ID=` line names fedora, rhel, centos,
/// rocky or almalinux (bare or in double quotes) is detected as the Fedora
/// family, whatever its `ID_LIKE` says.
pub proof fn law_fedora_family_ids(body: Seq<char>, k: int, name: Seq<char>, quoted: bool)
    requires
        name == "fedora"@ || name == "rhel"@ || name == "centos"@ || name == "rocky"@
            || name == "almalinux"@,
        last_id_is(body, k, name, quoted),
    ensures
        detect_distro_spec(body) == Some(Distro::Fedora),
{
    lemma_id_names();
    lemma_detected_id(body, k, name, quoted);
}

/// Whether an os-release line sets `ID_LIKE`.
pub open spec fn sets_like(l: Seq<char>) -> bool {
    l.len() >= 8 && l.subrange(0, 8) == seq!['I', 'D', '_', 'L', 'I', 'K', 'E', '=']
}

/// Whether line `k` of the os-release text `body` is its last line that
/// sets `ID_LIKE`, and sets it to `value`, bare or in double quotes.
pub open spec fn last_like_is(body: Seq<char>, k: int, value: Seq<char>, quoted: bool) -> bool {
    let ls = lines_spec(body);
    &&& 0 <= k < ls.len()
    &&& ls[k] == seq!['I', 'D', '_', 'L', 'I', 'K', 'E', '='] + (if quoted {
        seq!['"'] + value + seq!['"']
    } else {
        value
    })
    &&& forall|j: int| k < j < ls.len() ==> !sets_like(#[trigger] ls[j])
}

/// Whether a value is nonempty and neither starts nor ends with a double
/// quote.
pub open spec fn plain_value(v: Seq<char>) -> bool {
    v.len() > 0 && v[0] != '"' && v.last() != '"'
}

/// The `ID` values the installer knows by name.
pub open spec fn known_id(name: Seq<char>) -> bool {
    ||| name == "arch"@ || name == "manjaro"@ || name == "endeavouros"@
    ||| name == "debian"@ || name == "ubuntu"@ || name == "pop"@ || name == "linuxmint"@
        || name == "elementary"@
    ||| name == "fedora"@ || name == "rhel"@ || name == "centos"@ || name == "rocky"@
        || name == "almalinux"@
}

/// The `ID_LIKE` the scan keeps is the value of the last line that sets it.
proof fn lemma_scan_last_like(lines: Seq<Seq<char>>, k: int, v: Seq<char>)
    requires
        0 <= k < lines.len(),
        lines[k] == seq!['I', 'D', '_', 'L', 'I', 'K', 'E', '='] + v,
        forall|j: int| k < j < lines.len() ==> !sets_like(#[trigger] lines[j]),
    ensures
        scan_release(lines).1 == trim_quotes(v),
    decreases lines.len(),
{
    reveal_strlit("ID=");
    reveal_strlit("ID_LIKE=");
    let l = lines.last();
    if k == lines.len() - 1 {
        assert(strip_prefix(l, "ID="@) is None) by {
            if 3 <= l.len() && l.subrange(0, 3) == "ID="@ {
                assert(l.subrange(0, 3)[2] == l[2]);
            }
        }
        assert(l.subrange(0, 8) =~= "ID_LIKE="@);
        assert(l.subrange(8, l.len() as int) =~= v);
    } else {
        assert(!sets_like(lines[lines.len() - 1]));
        assert(strip_prefix(l, "ID_LIKE="@) is None) by {
            if 8 <= l.len() && l.subrange(0, 8) == "ID_LIKE="@ {
                assert(l.subrange(0, 8) =~= seq!['I', 'D', '_', 'L', 'I', 'K', 'E', '=']);
            }
        }
        let rest = lines.drop_last();
        assert(rest[k] == lines[k]);
        assert forall|j: int| k < j < rest.len() implies !sets_like(#[trigger] rest[j]) by {
            assert(rest[j] == lines[j]);
        }
        lemma_scan_last_like(rest, k, v);
    }
}

/// With an `ID` it does not know by name, the detection goes by the last
/// `ID_LIKE` value.
proof fn lemma_detected_like(
    body: Seq<char>,
    k: int,
    name: Seq<char>,
    q1: bool,
    k2: int,
    value: Seq<char>,
    q2: bool,
)
    requires
        last_id_is(body, k, name, q1),
        plain_value(name),
        !known_id(name),
        last_like_is(body, k2, value, q2),
        plain_value(value),
    ensures
        detect_distro_spec(body) == (if contains_text(value, "debian"@) {
            Some(Distro::DebianUbuntu)
        } else if contains_text(value, "arch"@) {
            Some(Distro::Arch)
        } else if contains_text(value, "fedora"@) || contains_text(value, "rhel"@) {
            Some(Distro::Fedora)
        } else {
            None
        }),
{
    lemma_detected_id(body, k, name, q1);
    lemma_trim_name(value);
    let v = if q2 { seq!['"'] + value + seq!['"'] } else { value };
    lemma_scan_last_like(lines_spec(body), k2, v);
}

/// With an `ID` the installer does not know by name, an `ID_LIKE` that names
/// debian makes the text detected as the Debian/Ubuntu family.
pub proof fn law_like_debian(
    body: Seq<char>,
    k: int,
    name: Seq<char>,
    q1: bool,
    k2: int,
    value: Seq<char>,
    q2: bool,
)
    requires
        last_id_is(body, k, name, q1),
        plain_value(name),
        !known_id(name),
        last_like_is(body, k2, value, q2),
        plain_value(value),
        contains_text(value, "debian"@),
    ensures
        detect_distro_spec(body) == Some(Distro::DebianUbuntu),
{
    lemma_detected_like(body, k, name, q1, k2, value, q2);
}

/// With an `ID` the installer does not know by name, an `ID_LIKE` that names
/// arch and not debian makes the text detected as the Arch family.
pub proof fn law_like_arch(
    body: Seq<char>,
    k: int,
    name: Seq<char>,
    q1: bool,
    k2: int,
    value: Seq<char>,
    q2: bool,
)
    requires
        last_id_is(body, k, name, q1),
        plain_value(name),
        !known_id(name),
        last_like_is(body, k2, value, q2),
        plain_value(value),
        !contains_text(value, "debian"@),
        contains_text(value, "arch"@),
    ensures
        detect_distro_spec(body) == Some(Distro::Arch),
{
    lemma_detected_like(body, k, name, q1, k2, value, q2);
}

/// With an `ID` the installer does not know by name, an `ID_LIKE` that names
/// fedora or rhel, and neither debian nor arch, makes the text detected as
/// the Fedora family.
pub proof fn law_like_fedora(
    body: Seq<char>,
    k: int,
    name: Seq<char>,
    q1: bool,
    k2: int,
    value: Seq<char>,
    q2: bool,
)
    requires
        last_id_is(body, k, name, q1),
        plain_value(name),
        !known_id(name),
        last_like_is(body, k2, value, q2),
        plain_value(value),
        !contains_text(value, "debian"@),
        !contains_text(value, "arch"@),
        contains_text(value, "fedora"@) || contains_text(value, "rhel"@),
    ensures
        detect_distro_spec(body) == Some(Distro::Fedora),
{
    lemma_detected_like(body, k, name, q1, k2, value, q2);
}

/// With an `ID` the installer does not know by name and an `ID_LIKE` that
/// names none of debian, arch, fedora and rhel, no family is detected.
pub proof fn law_like_unknown(
    body: Seq<char>,
    k: int,
    name: Seq<char>,
    q1: bool,
    k2: int,
    value: Seq<char>,
    q2: bool,
)
    requires
        last_id_is(body, k, name, q1),
        plain_value(name),
        !known_id(name),
        last_like_is(body, k2, value, q2),
        plain_value(value),
        !contains_text(value, "debian"@),
        !contains_text(value, "arch"@),
        !contains_text(value, "fedora"@),
        !contains_text(value, "rhel"@),
    ensures
        detect_distro_spec(body) is None,
{
    lemma_detected_like(body, k, name, q1, k2, value, q2);
}

} // verus!
