use vstd::prelude::*;

verus! {

/// Why a platform could not be resolved.
#[derive(Debug, Clone, PartialEq, Eq)]
pub enum PlatformError {
    /// The triple, or one of the forms derived from it, cannot stand as a
    /// file name component.
    InvalidPlatform { triple: String },
    /// The toolchain's version report has no `host: ` line.
    MissingHostField,
}

/// A character that may not appear in a file name component.
pub open spec fn is_unsafe_char(c: char) -> bool {
    c == '/' || c == '\\' || c == '\0'
}

/// A token that can stand as one component of a file name.
pub open spec fn is_name_token(s: Seq<char>) -> bool {
    &&& s.len() > 0
    &&& s != seq!['.']
    &&& s != seq!['.', '.']
    &&& forall|i: int| 0 <= i < s.len() ==> !is_unsafe_char(s[i])
}

/// A resolved compilation target: the triple as given, the
/// architecture-ABI tag used in build output names, and the form used in
/// package names.
#[derive(Debug, Clone)]
pub struct PlatformDetail {
    raw_triple: String,
    arch_abi_tag: String,
    display_form: String,
}

impl PlatformDetail {
    /// Both derived forms can stand in file names.
    pub open spec fn wf(&self) -> bool {
        is_name_token(self.tag_spec()) && is_name_token(self.display_spec())
    }

    pub closed spec fn raw_spec(&self) -> Seq<char> {
        self.raw_triple@
    }

    pub closed spec fn tag_spec(&self) -> Seq<char> {
        self.arch_abi_tag@
    }

    pub closed spec fn display_spec(&self) -> Seq<char> {
        self.display_form@
    }

    /// Builds the detail of a triple from its two derived forms; fails with
    /// `InvalidPlatform` unless both can stand in a file name.
    pub fn new(raw_triple: String, arch_abi_tag: String, display_form: String) -> (r: Result<
        PlatformDetail,
        PlatformError,
    >)
        ensures
            match r {
                Ok(p) => {
                    &&& is_name_token(arch_abi_tag@)
                    &&& is_name_token(display_form@)
                    &&& p.wf()
                    &&& p.raw_spec() == raw_triple@
                    &&& p.tag_spec() == arch_abi_tag@
                    &&& p.display_spec() == display_form@
                },
                Err(e) => {
                    &&& !(is_name_token(arch_abi_tag@) && is_name_token(display_form@))
                    &&& e == PlatformError::InvalidPlatform { triple: raw_triple }
                },
            },
    {
        if name_token(arch_abi_tag.as_str()) && name_token(display_form.as_str()) {
            Ok(PlatformDetail { raw_triple, arch_abi_tag, display_form })
        } else {
            Err(PlatformError::InvalidPlatform { triple: raw_triple })
        }
    }

    /// The triple as it was given.
    pub fn raw_triple(&self) -> (r: &str)
        ensures
            r@ == self.raw_spec(),
    {
        self.raw_triple.as_str()
    }

    /// The architecture-ABI tag that build output names carry.
    pub fn arch_abi_tag(&self) -> (r: &str)
        ensures
            r@ == self.tag_spec(),
    {
        self.arch_abi_tag.as_str()
    }

    /// The form of the platform that package names carry.
    pub fn display_form(&self) -> (r: &str)
        ensures
            r@ == self.display_spec(),
    {
        self.display_form.as_str()
    }
}

/// Whether `s` can stand as one component of a file name.
pub fn name_token(s: &str) -> (r: bool)
    ensures
        r == is_name_token(s@),
{
    let n = s.unicode_len();
    if n == 0 {
        return false;
    }
    if n == 1 && s.get_char(0) == '.' {
        assert(s@ =~= seq!['.']);
        return false;
    }
    if n == 2 && s.get_char(0) == '.' && s.get_char(1) == '.' {
        assert(s@ =~= seq!['.', '.']);
        return false;
    }
    assert(s@ != seq!['.'] && s@ != seq!['.', '.']) by {
        if s@ == seq!['.'] {
            assert(s@[0] == '.');
        }
        if s@ == seq!['.', '.'] {
            assert(s@[0] == '.' && s@[1] == '.');
        }
    }
    let mut i: usize = 0;
    while i < n
        invariant
            n == s@.len(),
            i <= n,
            forall|j: int| 0 <= j < i ==> !is_unsafe_char(s@[j]),
        decreases n - i,
    {
        let c = s.get_char(i);
        if c == '/' || c == '\\' || c == '\0' {
            return false;
        }
        i = i + 1;
    }
    true
}

/// The field name that marks the host line of the toolchain's version report.
pub open spec fn host_prefix() -> Seq<char> {
    seq!['h', 'o', 's', 't', ':', ' ']
}

/// Number of characters before the first newline of `s`, or its length.
pub open spec fn line_len(s: Seq<char>) -> nat
    decreases s.len(),
{
    if s.len() == 0 || s[0] == '\n' {
        0
    } else {
        1 + line_len(s.subrange(1, s.len() as int))
    }
}

/// The first line of `s`, without its terminator (`\n` or `\r\n`).
pub open spec fn first_line(s: Seq<char>) -> Seq<char> {
    let e = line_len(s) as int;
    if e < s.len() && e > 0 && s[e - 1] == '\r' {
        s.subrange(0, e - 1)
    } else {
        s.subrange(0, e)
    }
}

/// The value of the first line of a version report that starts with
/// `host: `.
pub open spec fn host_field(s: Seq<char>) -> Option<Seq<char>>
    decreases s.len(),
{
    if s.len() == 0 {
        None
    } else {
        let line = first_line(s);
        let e = line_len(s) as int;
        if line.len() >= 6 && line.subrange(0, 6) == host_prefix() {
            Some(line.subrange(6, line.len() as int))
        } else if e < s.len() {
            host_field(s.subrange(e + 1, s.len() as int))
        } else {
            None
        }
    }
}

proof fn lemma_line_len_bound(s: Seq<char>)
    ensures
        line_len(s) <= s.len(),
    decreases s.len(),
{
    if s.len() > 0 && s[0] != '\n' {
        lemma_line_len_bound(s.subrange(1, s.len() as int));
    }
}

/// Index of the end of the line that starts at `i`: the next newline, or the
/// end of `s`.
fn line_end(s: &str, i: usize) -> (r: usize)
    requires
        i <= s@.len(),
    ensures
        i <= r <= s@.len(),
        r - i == line_len(s@.subrange(i as int, s@.len() as int)),
        r < s@.len() ==> s@[r as int] == '\n',
{
    let n = s.unicode_len();
    let mut j: usize = i;
    while j < n && s.get_char(j) != '\n'
        invariant
            n == s@.len(),
            i <= j <= n,
            line_len(s@.subrange(i as int, n as int)) == (j - i) + line_len(
                s@.subrange(j as int, n as int),
            ),
        decreases n - j,
    {
        proof {
            let t = s@.subrange(j as int, n as int);
            assert(t.subrange(1, t.len() as int) =~= s@.subrange(j + 1, n as int));
        }
        j = j + 1;
    }
    j
}

/// Whether the six characters of `s` from `i` spell `host: `.
fn has_host_prefix(s: &str, i: usize) -> (r: bool)
    requires
        i + 6 <= s@.len(),
    ensures
        r == (s@.subrange(i as int, i + 6) == host_prefix()),
{
    let n = s.unicode_len();
    assert(i + 6 <= n);
    let r = s.get_char(i) == 'h' && s.get_char(i + 1) == 'o' && s.get_char(i + 2) == 's'
        && s.get_char(i + 3) == 't' && s.get_char(i + 4) == ':' && s.get_char(i + 5) == ' ';
    proof {
        let w = s@.subrange(i as int, i + 6);
        if r {
            assert(w =~= host_prefix());
        } else if w == host_prefix() {
            assert(w[0] == 'h' && w[1] == 'o' && w[2] == 's' && w[3] == 't' && w[4] == ':'
                && w[5] == ' ');
        }
    }
    r
}

/// The host triple named by a toolchain version report (the output of
/// `rustc -vV`): the rest of its first line that starts with `host: `.
/// Fails with `MissingHostField` when no line does.
pub fn host_triple(report: &str) -> (r: Result<String, PlatformError>)
    ensures
        match host_field(report@) {
            Some(h) => r is Ok && r->Ok_0@ == h,
            None => r == Err::<String, PlatformError>(PlatformError::MissingHostField),
        },
{
    let n = report.unicode_len();
    let mut i: usize = 0;
    proof {
        assert(report@.subrange(0, n as int) =~= report@);
    }
    while i < n
        invariant
            n == report@.len(),
            i <= n,
            host_field(report@) == host_field(report@.subrange(i as int, n as int)),
        decreases n - i,
    {
        let e = line_end(report, i);
        let ghost t = report@.subrange(i as int, n as int);
        let mut stop: usize = e;
        if e < n && e > i && report.get_char(e - 1) == '\r' {
            stop = e - 1;
        }
        proof {
            assert(first_line(t) =~= report@.subrange(i as int, stop as int));
        }
        if stop - i >= 6 && has_host_prefix(report, i) {
            proof {
                assert(first_line(t).subrange(0, 6) =~= report@.subrange(i as int, i + 6));
                assert(first_line(t).subrange(6, first_line(t).len() as int)
                    =~= report@.subrange(i + 6, stop as int));
            }
            return Ok(String::from_str(report.substring_char(i + 6, stop)));
        }
        proof {
            if stop - i >= 6 {
                assert(first_line(t).subrange(0, 6) =~= report@.subrange(i as int, i + 6));
            }
        }
        if e >= n {
            return Err(PlatformError::MissingHostField);
        }
        proof {
            assert(t.subrange(e - i + 1, t.len() as int) =~= report@.subrange(e + 1, n as int));
        }
        i = e + 1;
    }
    proof {
        assert(report@.subrange(i as int, n as int).len() == 0);
    }
    Err(PlatformError::MissingHostField)
}

} // verus!
