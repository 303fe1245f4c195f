//! Finding the display and X authority file of a running graphical session
//! in a process listing (`ps xww -e -o command`), and the environment a
//! headless host takes over from it.
use vstd::prelude::*;
use crate::text::{chars_of, is_white_space, string_of_chars, white_space};

verus! {

// ---------------------------------------------------------------------------
// Lines and words
// ---------------------------------------------------------------------------
/// The lines of a text ended by a line feed, and the text after the last
/// line feed.
pub open spec fn line_split(s: Seq<char>) -> (Seq<Seq<char>>, Seq<char>)
    decreases s.len(),
{
    if s.len() == 0 {
        (Seq::empty(), Seq::empty())
    } else {
        let (done, cur) = line_split(s.drop_last());
        if s.last() == '\n' {
            (done.push(cur), Seq::empty())
        } else {
            (done, cur.push(s.last()))
        }
    }
}

/// A line without the carriage return that ended it.
pub open spec fn without_cr(line: Seq<char>) -> Seq<char> {
    if line.len() > 0 && line.last() == '\r' {
        line.drop_last()
    } else {
        line
    }
}

/// The lines of a text as `str::lines` gives them: a carriage return before
/// a line feed belongs to the line ending, and an empty text after the last
/// line feed is no line.
pub open spec fn text_lines(s: Seq<char>) -> Seq<Seq<char>> {
    let ended = line_split(s).0.map_values(|l: Seq<char>| without_cr(l));
    if line_split(s).1.len() > 0 {
        ended.push(line_split(s).1)
    } else {
        ended
    }
}

/// The words of a text completed so far, and the word being read.
pub open spec fn word_split(s: Seq<char>) -> (Seq<Seq<char>>, Seq<char>)
    decreases s.len(),
{
    if s.len() == 0 {
        (Seq::empty(), Seq::empty())
    } else {
        let (done, cur) = word_split(s.drop_last());
        let c = s.last();
        if is_white_space(c) {
            if cur.len() > 0 {
                (done.push(cur), Seq::empty())
            } else {
                (done, cur)
            }
        } else {
            (done, cur.push(c))
        }
    }
}

/// The words of a text as `str::split_whitespace` gives them.
pub open spec fn words(s: Seq<char>) -> Seq<Seq<char>> {
    if word_split(s).1.len() > 0 {
        word_split(s).0.push(word_split(s).1)
    } else {
        word_split(s).0
    }
}

/// `t` occurs in `s` at index `i`.
pub open spec fn occurs_at(s: Seq<char>, t: Seq<char>, i: int) -> bool {
    0 <= i && i + t.len() <= s.len() && s.subrange(i, i + t.len()) == t
}

/// `t` occurs somewhere in `s`.
pub open spec fn has_substring(s: Seq<char>, t: Seq<char>) -> bool {
    exists|i: int| #[trigger] occurs_at(s, t, i)
}

// ---------------------------------------------------------------------------
// What a listing reveals
// ---------------------------------------------------------------------------
pub open spec fn auth_flag() -> Seq<char> {
    seq!['-', 'a', 'u', 't', 'h']
}

pub open spec fn display_flag() -> Seq<char> {
    seq!['-', 'd', 'i', 's', 'p', 'l', 'a', 'y']
}

pub open spec fn xorg_name() -> Seq<char> {
    seq!['X', 'o', 'r', 'g']
}

pub open spec fn xwayland_name() -> Seq<char> {
    seq!['X', 'w', 'a', 'y', 'l', 'a', 'n', 'd']
}

/// The default display, `:0`.
pub open spec fn default_display() -> Seq<char> {
    seq![':', '0']
}

/// The authority file and the display found so far.
pub struct Findings {
    pub auth: Option<Seq<char>>,
    pub display: Option<Seq<char>>,
}

/// Word `i` of the command line of an X server: `-auth` names the
/// authority file in the next word, and `:0` or `:1` is the display.
pub open spec fn server_word(t: Seq<Seq<char>>, i: int, f: Findings) -> Findings {
    Findings {
        auth: if t[i] == auth_flag() && i + 1 < t.len() {
            Some(t[i + 1])
        } else {
            f.auth
        },
        display: if t[i] == seq![':', '0'] || t[i] == seq![':', '1'] {
            Some(t[i])
        } else {
            f.display
        },
    }
}

/// Words `0` up to `n` of the command line of an X server.
pub open spec fn server_words(t: Seq<Seq<char>>, n: int, f: Findings) -> Findings
    decreases n,
{
    if n <= 0 {
        f
    } else {
        server_word(t, n - 1, server_words(t, n - 1, f))
    }
}

/// Word `i` of a command line that names both flags: each names its value
/// in the next word.
pub open spec fn flag_word(t: Seq<Seq<char>>, i: int, f: Findings) -> Findings {
    Findings {
        auth: if t[i] == auth_flag() && i + 1 < t.len() {
            Some(t[i + 1])
        } else {
            f.auth
        },
        display: if t[i] == display_flag() && i + 1 < t.len() {
            Some(t[i + 1])
        } else {
            f.display
        },
    }
}

/// Words `0` up to `n` of a command line that names both flags.
pub open spec fn flag_words(t: Seq<Seq<char>>, n: int, f: Findings) -> Findings
    decreases n,
{
    if n <= 0 {
        f
    } else {
        flag_word(t, n - 1, flag_words(t, n - 1, f))
    }
}

/// What one line of the listing adds: the words of an X server's command
/// line (one that mentions `Xorg` or `Xwayland`), then the words of a
/// command line that mentions both `-auth` and `-display`.
pub open spec fn line_findings(line: Seq<char>, f: Findings) -> Findings {
    let t = words(line);
    let f1 = if has_substring(line, xorg_name()) || has_substring(line, xwayland_name()) {
        server_words(t, t.len() as int, f)
    } else {
        f
    };
    if has_substring(line, auth_flag()) && has_substring(line, display_flag()) {
        flag_words(t, t.len() as int, f1)
    } else {
        f1
    }
}

/// The findings of a sequence of lines, read in order; a later finding
/// replaces an earlier one.
pub open spec fn lines_findings(ls: Seq<Seq<char>>) -> Findings
    decreases ls.len(),
{
    if ls.len() == 0 {
        Findings { auth: None, display: None }
    } else {
        line_findings(ls.last(), lines_findings(ls.drop_last()))
    }
}

/// A line that is not an X server's command line adds nothing unless it
/// names both `-auth` and `-display`: with either flag missing, the
/// findings of the lines before it stand as they were.
pub proof fn law_other_lines_need_both_flags(ls: Seq<Seq<char>>, line: Seq<char>)
    requires
        !has_substring(line, xorg_name()),
        !has_substring(line, xwayland_name()),
        !has_substring(line, auth_flag()) || !has_substring(line, display_flag()),
    ensures
        lines_findings(ls.push(line)) == lines_findings(ls),
{
    assert(ls.push(line).drop_last() =~= ls);
}

/// The findings of a process listing.
pub open spec fn listing_findings(listing: Seq<char>) -> Findings {
    lines_findings(text_lines(listing))
}

/// The display and authority file of the graphical session that a listing
/// shows.
pub struct SessionEnvironment {
    /// The display found, or `:0`.
    pub display: String,
    /// The authority file, where one was found.
    pub xauthority: Option<String>,
}

// ---------------------------------------------------------------------------
// Executable
// ---------------------------------------------------------------------------
fn chars_equal(a: &[char], b: &[char]) -> (r: bool)
    ensures
        r == (a@ == b@),
{
    if a.len() != b.len() {
        return false;
    }
    let mut i: usize = 0;
    while i < a.len()
        invariant
            i <= a@.len(),
            a@.len() == b@.len(),
            forall|k: int| 0 <= k < i ==> a@[k] == b@[k],
        decreases a@.len() - i,
    {
        if a[i] != b[i] {
            return false;
        }
        i = i + 1;
    }
    assert(a@ =~= b@);
    true
}

fn occurs_at_exec(s: &[char], t: &[char], i: usize) -> (r: bool)
    requires
        i + t@.len() <= s@.len(),
    ensures
        r == occurs_at(s@, t@, i as int),
{
    let n = s.len();
    let mut k: usize = 0;
    while k < t.len()
        invariant
            k <= t@.len(),
            n == s@.len(),
            i + t@.len() <= s@.len(),
            forall|j: int| 0 <= j < k ==> s@[i + j] == t@[j],
        decreases t@.len() - k,
    {
        if s[i + k] != t[k] {
            assert(s@.subrange(i as int, i + t@.len())[k as int] != t@[k as int]);
            return false;
        }
        k = k + 1;
    }
    assert(s@.subrange(i as int, i + t@.len()) =~= t@);
    true
}

fn contains_chars(s: &[char], t: &[char]) -> (r: bool)
    ensures
        r == has_substring(s@, t@),
{
    if t.len() > s.len() {
        assert forall|i: int| !occurs_at(s@, t@, i) by {}
        return false;
    }
    if t.len() == 0 {
        assert(s@.subrange(0, 0) =~= t@);
        assert(occurs_at(s@, t@, 0));
        return true;
    }
    let n = s.len();
    let last = n - t.len();
    let mut i: usize = 0;
    while i <= last
        invariant
            last + t@.len() == s@.len(),
            n == s@.len(),
            t@.len() > 0,
            forall|j: int| 0 <= j < i ==> !#[trigger] occurs_at(s@, t@, j),
        decreases last + 1 - i,
    {
        if occurs_at_exec(s, t, i) {
            return true;
        }
        i = i + 1;
    }
    assert forall|j: int| !#[trigger] occurs_at(s@, t@, j) by {
        if 0 <= j < i {
        }
    }
    false
}

fn copy_chars(v: &[char]) -> (r: Vec<char>)
    ensures
        r@ == v@,
{
    vstd::slice::slice_to_vec(v)
}

/// The words of a line.
fn split_words(line: &[char]) -> (r: Vec<Vec<char>>)
    ensures
        r@.map_values(|w: Vec<char>| w@) == words(line@),
{
    let mut done: Vec<Vec<char>> = Vec::new();
    let mut cur: Vec<char> = Vec::new();
    let mut i: usize = 0;
    while i < line.len()
        invariant
            i <= line@.len(),
            done@.map_values(|w: Vec<char>| w@) == word_split(line@.take(i as int)).0,
            cur@ == word_split(line@.take(i as int)).1,
        decreases line@.len() - i,
    {
        let c = line[i];
        assert(line@.take(i + 1).drop_last() =~= line@.take(i as int));
        let ghost before = done@;
        if white_space(c) {
            if cur.len() > 0 {
                let mut w: Vec<char> = Vec::new();
                std::mem::swap(&mut w, &mut cur);
                done.push(w);
                assert(done@.map_values(|w: Vec<char>| w@) =~= before.map_values(
                    |w: Vec<char>| w@,
                ).push(w@));
            }
        } else {
            cur.push(c);
        }
        i = i + 1;
    }
    assert(line@.take(line@.len() as int) =~= line@);
    if cur.len() > 0 {
        let ghost before = done@;
        done.push(cur);
        assert(done@.map_values(|w: Vec<char>| w@) =~= before.map_values(|w: Vec<char>| w@).push(
            done@.last()@,
        ));
    }
    done
}

spec fn opt_view(o: Option<Vec<char>>) -> Option<Seq<char>> {
    match o {
        Some(v) => Some(v@),
        None => None,
    }
}

spec fn found_view(f: (Option<Vec<char>>, Option<Vec<char>>)) -> Findings {
    Findings { auth: opt_view(f.0), display: opt_view(f.1) }
}

/// Reads the words of a command line: those of an X server (`explicit`
/// false) or those of a command line that names both flags.
fn scan_words(t: &Vec<Vec<char>>, explicit: bool, found: (Option<Vec<char>>, Option<Vec<char>>)) -> (r: (
    Option<Vec<char>>,
    Option<Vec<char>>,
))
    ensures
        explicit ==> found_view(r) == flag_words(
            t@.map_values(|w: Vec<char>| w@),
            t@.len() as int,
            found_view(found),
        ),
        !explicit ==> found_view(r) == server_words(
            t@.map_values(|w: Vec<char>| w@),
            t@.len() as int,
            found_view(found),
        ),
{
    let ghost tv = t@.map_values(|w: Vec<char>| w@);
    let auth_w = ['-', 'a', 'u', 't', 'h'];
    let display_w = ['-', 'd', 'i', 's', 'p', 'l', 'a', 'y'];
    let zero_w = [':', '0'];
    let one_w = [':', '1'];
    assert(auth_w@ =~= auth_flag());
    assert(display_w@ =~= display_flag());
    assert(zero_w@ =~= seq![':', '0']);
    assert(one_w@ =~= seq![':', '1']);
    let mut f = found;
    let mut i: usize = 0;
    while i < t.len()
        invariant
            i <= t@.len(),
            tv == t@.map_values(|w: Vec<char>| w@),
            auth_w@ == auth_flag(),
            display_w@ == display_flag(),
            zero_w@ == seq![':', '0'],
            one_w@ == seq![':', '1'],
            explicit ==> found_view(f) == flag_words(tv, i as int, found_view(found)),
            !explicit ==> found_view(f) == server_words(tv, i as int, found_view(found)),
        decreases t@.len() - i,
    {
        assert(tv[i as int] == t@[i as int]@);
        let is_auth = chars_equal(t[i].as_slice(), &auth_w);
        if is_auth && i + 1 < t.len() {
            assert(tv[i + 1] == t@[i + 1]@);
            f.0 = Some(copy_chars(t[i + 1].as_slice()));
        }
        if explicit {
            if chars_equal(t[i].as_slice(), &display_w) && i + 1 < t.len() {
                assert(tv[i + 1] == t@[i + 1]@);
                f.1 = Some(copy_chars(t[i + 1].as_slice()));
            }
        } else {
            if chars_equal(t[i].as_slice(), &zero_w) || chars_equal(t[i].as_slice(), &one_w) {
                f.1 = Some(copy_chars(t[i].as_slice()));
            }
        }
        i = i + 1;
    }
    f
}

/// Reads one line of the listing.
fn scan_line(line: &[char], found: (Option<Vec<char>>, Option<Vec<char>>)) -> (r: (
    Option<Vec<char>>,
    Option<Vec<char>>,
))
    ensures
        found_view(r) == line_findings(line@, found_view(found)),
{
    let xorg = ['X', 'o', 'r', 'g'];
    let xwayland = ['X', 'w', 'a', 'y', 'l', 'a', 'n', 'd'];
    let auth_w = ['-', 'a', 'u', 't', 'h'];
    let display_w = ['-', 'd', 'i', 's', 'p', 'l', 'a', 'y'];
    assert(xorg@ =~= xorg_name());
    assert(xwayland@ =~= xwayland_name());
    assert(auth_w@ =~= auth_flag());
    assert(display_w@ =~= display_flag());
    let t = split_words(line);
    let mut f = found;
    if contains_chars(line, &xorg) || contains_chars(line, &xwayland) {
        f = scan_words(&t, false, f);
    }
    if contains_chars(line, &auth_w) && contains_chars(line, &display_w) {
        f = scan_words(&t, true, f);
    }
    f
}

/// A line without the carriage return that ended it.
fn strip_cr(line: &Vec<char>) -> (r: Vec<char>)
    ensures
        r@ == without_cr(line@),
{
    let n = line.len();
    if n > 0 && line[n - 1] == '\r' {
        let r = vstd::slice::slice_subrange(line.as_slice(), 0, n - 1);
        let v = copy_chars(r);
        assert(v@ =~= line@.drop_last());
        v
    } else {
        copy_chars(line.as_slice())
    }
}

proof fn lemma_findings_push(ls: Seq<Seq<char>>, line: Seq<char>)
    ensures
        lines_findings(ls.push(line)) == line_findings(line, lines_findings(ls)),
{
    assert(ls.push(line).drop_last() =~= ls);
}

/// The display and X authority file of the graphical session that a
/// process listing shows: the last `-auth` value of a command line of an X
/// server or of one that names both `-auth` and `-display`, and the last
/// display named there (`:0` where none is).
pub fn find_session_environment(listing: &str) -> (r: SessionEnvironment)
    ensures
        r.display@ == (match listing_findings(listing@).display {
            Some(d) => d,
            None => default_display(),
        }),
        match r.xauthority {
            Some(a) => listing_findings(listing@).auth == Some(a@),
            None => listing_findings(listing@).auth is None,
        },
{
    let s = chars_of(listing);
    let mut found: (Option<Vec<char>>, Option<Vec<char>>) = (None, None);
    let mut cur: Vec<char> = Vec::new();
    let mut i: usize = 0;
    while i < s.len()
        invariant
            i <= s@.len(),
            cur@ == line_split(s@.take(i as int)).1,
            found_view(found) == lines_findings(
                line_split(s@.take(i as int)).0.map_values(|l: Seq<char>| without_cr(l)),
            ),
        decreases s@.len() - i,
    {
        let c = s[i];
        assert(s@.take(i + 1).drop_last() =~= s@.take(i as int));
        let ghost done = line_split(s@.take(i as int)).0;
        if c == '\n' {
            let line = strip_cr(&cur);
            found = scan_line(line.as_slice(), found);
            proof {
                assert(done.push(cur@).map_values(|l: Seq<char>| without_cr(l)) =~= done.map_values(
                    |l: Seq<char>| without_cr(l),
                ).push(without_cr(cur@)));
                lemma_findings_push(done.map_values(|l: Seq<char>| without_cr(l)), without_cr(cur@));
            }
            cur = Vec::new();
        } else {
            cur.push(c);
        }
        i = i + 1;
    }
    assert(s@.take(s@.len() as int) =~= s@);
    if cur.len() > 0 {
        proof {
            lemma_findings_push(line_split(s@).0.map_values(|l: Seq<char>| without_cr(l)), cur@);
        }
        found = scan_line(cur.as_slice(), found);
    }
    let display = match found.1 {
        Some(d) => string_of_chars(d.as_slice()),
        None => {
            let d = [':', '0'];
            assert(d@ =~= default_display());
            string_of_chars(&d)
        },
    };
    let xauthority = match found.0 {
        Some(a) => Some(string_of_chars(a.as_slice())),
        None => None,
    };
    SessionEnvironment { display, xauthority }
}

/// The environment variables that a host sets to reach the graphical
/// session of a listing: `DISPLAY` and `XAUTHORITY` where an authority file
/// was found; otherwise `WAYLAND_DISPLAY=wayland-0` unless that variable is
/// already set; otherwise none.
pub open spec fn environment_plan(listing: Seq<char>, wayland_display_set: bool) -> Seq<
    (Seq<char>, Seq<char>),
> {
    let f = listing_findings(listing);
    let display = match f.display {
        Some(d) => d,
        None => default_display(),
    };
    match f.auth {
        Some(a) => seq![
            (seq!['D', 'I', 'S', 'P', 'L', 'A', 'Y'], display),
            (seq!['X', 'A', 'U', 'T', 'H', 'O', 'R', 'I', 'T', 'Y'], a),
        ],
        None => if wayland_display_set {
            Seq::empty()
        } else {
            seq![
                (
                    seq!['W', 'A', 'Y', 'L', 'A', 'N', 'D', '_', 'D', 'I', 'S', 'P', 'L', 'A', 'Y'],
                    seq!['w', 'a', 'y', 'l', 'a', 'n', 'd', '-', '0'],
                ),
            ]
        },
    }
}

/// The variables to set, as name and value, for the graphical session that
/// a process listing shows.
pub fn session_environment_plan(listing: &str, wayland_display_set: bool) -> (r: Vec<
    (String, String),
>)
    ensures
        r@.map_values(|p: (String, String)| (p.0@, p.1@)) == environment_plan(
            listing@,
            wayland_display_set,
        ),
{
    let env = find_session_environment(listing);
    let mut r: Vec<(String, String)> = Vec::new();
    match env.xauthority {
        Some(a) => {
            let dn = ['D', 'I', 'S', 'P', 'L', 'A', 'Y'];
            let xn = ['X', 'A', 'U', 'T', 'H', 'O', 'R', 'I', 'T', 'Y'];
            let d = string_of_chars(&dn);
            let x = string_of_chars(&xn);
            r.push((d, env.display));
            r.push((x, a));
            assert(r@.map_values(|p: (String, String)| (p.0@, p.1@)) =~= environment_plan(
                listing@,
                wayland_display_set,
            ));
        },
        None => {
            if !wayland_display_set {
                let wn = ['W', 'A', 'Y', 'L', 'A', 'N', 'D', '_', 'D', 'I', 'S', 'P', 'L', 'A', 'Y'];
                let wv = ['w', 'a', 'y', 'l', 'a', 'n', 'd', '-', '0'];
                let n = string_of_chars(&wn);
                let v = string_of_chars(&wv);
                r.push((n, v));
            }
            assert(r@.map_values(|p: (String, String)| (p.0@, p.1@)) =~= environment_plan(
                listing@,
                wayland_display_set,
            ));
        },
    }
    r
}

} // verus!
