//! The `adb` commands this crate sends, and the parsing of their output.
//!
//! Running `adb` is the caller's part: each function here either builds the
//! argument list of one `adb` invocation or turns what one invocation printed
//! (a `CommandOutput`) into a value.
use crate::text::{
    chars_of, line_ranges, lines_of, push_char, push_seq, push_unique, range_eq, string_from,
    string_of, string_of_range, trim, trim_end_char, trim_end_char_len, trim_range, views, word_ranges,
    words_of,
};
use vstd::prelude::*;
use vstd::utf8::*;

verus! {

// ---------------------------------------------------------------------------
// Errors
// ---------------------------------------------------------------------------

/// What can go wrong when talking to `adb`.
#[derive(Debug)]
pub enum AdbError {
    /// The `adb` binary is not on the `PATH`.
    NotAvailable,
    /// A sync of the same device is already running.
    AlreadyInProgress,
    /// Any other failure, with its message.
    Other(String),
}

impl AdbError {
    /// The text this error displays.
    pub open spec fn message_spec(&self) -> Seq<char> {
        match self {
            AdbError::NotAvailable => "adb binary not found in PATH"@,
            AdbError::AlreadyInProgress => "Sync already in progress"@,
            AdbError::Other(m) => m@,
        }
    }

    /// The text this error displays.
    pub fn message(&self) -> (r: String)
        ensures
            r@ == self.message_spec(),
    {
        match self {
            AdbError::NotAvailable => string_from("adb binary not found in PATH"),
            AdbError::AlreadyInProgress => string_from("Sync already in progress"),
            AdbError::Other(m) => m.clone(),
        }
    }
}

/// The error reported when `adb` could not be started: `NotAvailable` when
/// the binary was not found, otherwise a message naming the first argument.
pub fn run_adb_error(args: &Vec<String>, not_found: bool, err_text: &str) -> (r: AdbError)
    ensures
        not_found ==> r is NotAvailable,
        !not_found ==> r is Other && r->Other_0@ == "Failed to run adb "@ + (if args@.len() > 0 {
            args@[0]@
        } else {
            Seq::empty()
        }) + ": "@ + err_text@,
{
    if not_found {
        AdbError::NotAvailable
    } else {
        let mut m = string_from("Failed to run adb ");
        if args.len() > 0 {
            push_seq(&mut m, args[0].as_str());
        } else {
            proof {
                assert(m@ + Seq::<char>::empty() =~= m@);
            }
        }
        push_seq(&mut m, ": ");
        push_seq(&mut m, err_text);
        AdbError::Other(m)
    }
}

// ---------------------------------------------------------------------------
// Command output
// ---------------------------------------------------------------------------

/// What one finished `adb` invocation left behind.
#[derive(Debug)]
pub struct CommandOutput {
    /// Whether it exited with status 0.
    pub success: bool,
    pub stdout: Vec<u8>,
    pub stderr: Vec<u8>,
}

/// The text `String::from_utf8_lossy` makes of `b`.
pub uninterp spec fn lossy_decode(b: Seq<u8>) -> Seq<char>;

/// Calls `String::from_utf8_lossy`. Its documentation promises that valid
/// UTF-8 is decoded as it is; what it makes of invalid sequences (U+FFFD in
/// their place) is left to the name.
#[verifier::external_body]
pub(crate) fn utf8_lossy(b: &Vec<u8>) -> (r: String)
    ensures
        r@ == lossy_decode(b@),
        valid_utf8(b@) ==> r@ == decode_utf8(b@),
{
    String::from_utf8_lossy(b.as_slice()).into_owned()
}

/// What the `adb` helper gives back: the decoded standard output on success,
/// else the decoded and trimmed standard error as the failure message.
pub open spec fn adb_outcome_spec(o: CommandOutput) -> Result<Seq<char>, Seq<char>> {
    if o.success {
        Ok(lossy_decode(o.stdout@))
    } else {
        Err(trim(lossy_decode(o.stderr@)))
    }
}

/// The outcome of one `adb -s <device> ...` invocation.
pub fn adb_outcome(o: &CommandOutput) -> (r: Result<String, String>)
    ensures
        r is Ok == adb_outcome_spec(*o) is Ok,
        r is Ok ==> r->Ok_0@ == adb_outcome_spec(*o)->Ok_0,
        r is Err ==> r->Err_0@ == adb_outcome_spec(*o)->Err_0,
{
    if o.success {
        Ok(utf8_lossy(&o.stdout))
    } else {
        let e = utf8_lossy(&o.stderr);
        let v = chars_of(e.as_str());
        let (a, b) = trim_range(&v, 0, v.len());
        assert(v@.subrange(0, v@.len() as int) =~= v@);
        Err(string_of_range(&v, a, b))
    }
}

// ---------------------------------------------------------------------------
// Shell quoting
// ---------------------------------------------------------------------------

/// How one character is written inside single quotes: a quote closes the
/// quoting, is written escaped, and reopens it.
pub open spec fn quote_piece(c: char) -> Seq<char> {
    if c == '\'' {
        seq!['\'', '\\', '\'', '\'']
    } else {
        seq![c]
    }
}

/// The characters of `s`, each written as `quote_piece` writes it: `s` with
/// every `'` replaced by `'\''` (as `str::replace` does it).
pub open spec fn quote_body(s: Seq<char>) -> Seq<char>
    decreases s.len(),
{
    if s.len() == 0 {
        seq![]
    } else {
        quote_piece(s[0]) + quote_body(s.drop_first())
    }
}

/// `s` quoted for a POSIX shell: in single quotes, with every single quote
/// of `s` written as `'\''`.
pub open spec fn shell_quoted(s: Seq<char>) -> Seq<char> {
    seq!['\''] + quote_body(s) + seq!['\'']
}

proof fn lemma_quote_body_push(a: Seq<char>, c: char)
    ensures
        quote_body(a.push(c)) == quote_body(a) + quote_piece(c),
    decreases a.len(),
{
    if a.len() == 0 {
        assert(a.push(c).drop_first() =~= Seq::<char>::empty());
        assert(quote_body(a.push(c)) =~= quote_piece(c) + quote_body(Seq::<char>::empty()));
    } else {
        assert(a.push(c).drop_first() =~= a.drop_first().push(c));
        lemma_quote_body_push(a.drop_first(), c);
        assert(quote_body(a.push(c)) =~= quote_piece(a[0]) + quote_body(a.drop_first().push(c)));
    }
}

/// The escaping replaces quotes and nothing else: it works piece by piece
/// (the escape of `a + b` is the escape of `a` followed by that of `b`),
/// leaves a text without `'` as it is, and writes a single `'` as `'\''`.
pub proof fn lemma_quote_body_replaces_quotes(a: Seq<char>, b: Seq<char>)
    ensures
        quote_body(a + b) == quote_body(a) + quote_body(b),
        !a.contains('\'') ==> quote_body(a) == a,
        quote_body(seq!['\'']) == seq!['\'', '\\', '\'', '\''],
    decreases a.len(),
{
    if a.len() > 0 {
        lemma_quote_body_replaces_quotes(a.drop_first(), b);
        assert((a + b).drop_first() =~= a.drop_first() + b);
        assert(quote_body(a + b) =~= quote_piece(a[0]) + quote_body(a.drop_first() + b));
        if !a.contains('\'') {
            assert(!a.drop_first().contains('\'')) by {
                if a.drop_first().contains('\'') {
                    let j = choose|j: int| 0 <= j < a.drop_first().len() && a.drop_first()[j] == '\'';
                    assert(a[j + 1] == '\'');
                }
            }
            assert(a[0] != '\'');
            assert(quote_body(a) =~= seq![a[0]] + a.drop_first());
            assert(a =~= seq![a[0]] + a.drop_first());
        }
    } else {
        assert(a + b =~= b);
        assert(quote_body(a) =~= a);
    }
    assert(seq!['\''].drop_first() =~= Seq::<char>::empty());
}

/// Quotes `s` so that the shell on the device reads it as one literal word:
/// `'` + `s` with every `'` replaced by `'\''` + `'`.
pub fn shell_escape(s: &str) -> (r: String)
    ensures
        r@ == shell_quoted(s@),
{
    let v = chars_of(s);
    let mut r = String::new();
    push_char(&mut r, '\'');
    let mut i: usize = 0;
    assert(v@.take(0) =~= Seq::<char>::empty());
    while i < v.len()
        invariant
            v@ == s@,
            i <= v@.len(),
            r@ == seq!['\''] + quote_body(v@.take(i as int)),
        decreases v@.len() - i,
    {
        let c = v[i];
        proof {
            assert(v@.take(i + 1) =~= v@.take(i as int).push(c));
            lemma_quote_body_push(v@.take(i as int), c);
        }
        if c == '\'' {
            push_char(&mut r, '\'');
            push_char(&mut r, '\\');
            push_char(&mut r, '\'');
            push_char(&mut r, '\'');
        } else {
            push_char(&mut r, c);
        }
        i = i + 1;
        assert(r@ =~= seq!['\''] + quote_body(v@.take(i as int)));
    }
    push_char(&mut r, '\'');
    assert(v@.take(v@.len() as int) =~= v@);
    assert(r@ =~= shell_quoted(s@));
    r
}

/// `c` put in front of the word `o`, if there is one.
pub open spec fn prepend(c: char, o: Option<Seq<char>>) -> Option<Seq<char>> {
    match o {
        Some(w) => Some(seq![c] + w),
        None => None,
    }
}

/// How a POSIX shell reads the rest `t` of a word outside quotes: a single
/// quote opens a quoted part, a backslash takes the next character
/// literally, any other character stands for itself.
pub open spec fn sh_read_unquoted(t: Seq<char>) -> Option<Seq<char>>
    decreases t.len(),
{
    if t.len() == 0 {
        Some(seq![])
    } else if t[0] == '\'' {
        sh_read_quoted(t.drop_first())
    } else if t[0] == '\\' && t.len() >= 2 {
        prepend(t[1], sh_read_unquoted(t.skip(2)))
    } else {
        prepend(t[0], sh_read_unquoted(t.drop_first()))
    }
}

/// How a POSIX shell reads the rest `t` of a word inside single quotes:
/// every character stands for itself up to the closing quote; a word whose
/// quote is never closed is not read (`None`).
pub open spec fn sh_read_quoted(t: Seq<char>) -> Option<Seq<char>>
    decreases t.len(),
{
    if t.len() == 0 {
        None
    } else if t[0] == '\'' {
        sh_read_unquoted(t.drop_first())
    } else {
        prepend(t[0], sh_read_quoted(t.drop_first()))
    }
}

/// `s` put in front of the word `o`, if there is one.
pub open spec fn prepend_all(s: Seq<char>, o: Option<Seq<char>>) -> Option<Seq<char>> {
    match o {
        Some(w) => Some(s + w),
        None => None,
    }
}

proof fn lemma_read_quote_body(s: Seq<char>, rest: Seq<char>)
    ensures
        sh_read_quoted(quote_body(s) + seq!['\''] + rest) == prepend_all(s, sh_read_unquoted(rest)),
    decreases s.len(),
{
    let t = quote_body(s) + seq!['\''] + rest;
    if s.len() == 0 {
        assert(t =~= seq!['\''] + rest);
        assert(t.drop_first() =~= rest);
        match sh_read_unquoted(rest) {
            Some(w) => {
                assert(s + w =~= w);
            },
            None => {},
        }
    } else {
        let c = s[0];
        let s2 = s.drop_first();
        let t2 = quote_body(s2) + seq!['\''] + rest;
        lemma_read_quote_body(s2, rest);
        assert(quote_body(s) == quote_piece(c) + quote_body(s2));
        if c == '\'' {
            let u = seq!['\\', '\'', '\''] + t2;
            let w = seq!['\''] + t2;
            assert(t =~= seq!['\''] + u);
            assert(t.drop_first() =~= u);
            assert(u.skip(2) =~= w);
            assert(w.drop_first() =~= t2);
            assert(sh_read_unquoted(w) == sh_read_quoted(t2));
            assert(sh_read_unquoted(u) == prepend('\'', sh_read_unquoted(w)));
            assert(sh_read_quoted(t) == sh_read_unquoted(u));
        } else {
            assert(t =~= seq![c] + t2);
            assert(t.drop_first() =~= t2);
            assert(sh_read_quoted(t) == prepend(c, sh_read_quoted(t2)));
        }
        match sh_read_unquoted(rest) {
            Some(w) => {
                assert(seq![c] + (s2 + w) =~= s + w);
            },
            None => {},
        }
    }
}

/// Quoting law: the shell on the device reads the quoted text of any
/// argument back as exactly that argument.
pub proof fn lemma_shell_quoting_round_trip(s: Seq<char>)
    ensures
        sh_read_unquoted(shell_quoted(s)) == Some(s),
{
    let t = shell_quoted(s);
    assert(t.drop_first() =~= quote_body(s) + seq!['\''] + Seq::<char>::empty());
    lemma_read_quote_body(s, Seq::<char>::empty());
    assert(s + Seq::<char>::empty() =~= s);
}

// ---------------------------------------------------------------------------
// Argument lists
// ---------------------------------------------------------------------------

/// The arguments of `adb -s <device> <args...>`.
pub fn adb(device: &str, args: Vec<String>) -> (r: Vec<String>)
    ensures
        views(r@) == seq!["-s"@, device@] + views(args@),
{
    let mut r: Vec<String> = Vec::new();
    r.push(string_from("-s"));
    r.push(string_from(device));
    let ghost head = r@;
    let mut i: usize = 0;
    while i < args.len()
        invariant
            head.len() == 2,
            views(head) == seq!["-s"@, device@],
            i <= args@.len(),
            r@ == head + args@.take(i as int),
        decreases args@.len() - i,
    {
        r.push(args[i].clone());
        i = i + 1;
        assert(r@ =~= head + args@.take(i as int));
    }
    assert(args@.take(args@.len() as int) =~= args@);
    assert(views(r@) =~= views(head) + views(args@));
    r
}

/// A two-word `shell` argument list: `shell <command>`.
fn shell_args(command: String) -> (r: Vec<String>)
    ensures
        views(r@) == seq!["shell"@, command@],
{
    let r = vec![string_from("shell"), command];
    assert(views(r@) =~= seq!["shell"@, views(r@)[1]]);
    r
}

/// `text` followed by the quoted `arg`.
fn with_quoted(text: &str, arg: &str) -> (r: String)
    ensures
        r@ == text@ + shell_quoted(arg@),
{
    let mut r = string_from(text);
    let q = shell_escape(arg);
    push_seq(&mut r, q.as_str());
    r
}

/// The arguments that create `dir` (with its parents) on `device`.
pub fn ensure_dir(device: &str, dir: &str) -> (r: Vec<String>)
    ensures
        views(r@) == seq!["-s"@, device@, "shell"@, "mkdir -p "@ + shell_quoted(dir@)],
{
    let r = adb(device, shell_args(with_quoted("mkdir -p ", dir)));
    assert(views(r@) =~= seq!["-s"@, device@, "shell"@, "mkdir -p "@ + shell_quoted(dir@)]);
    r
}

/// The arguments that list every file below `dir` on `device`.
pub fn list_files_args(device: &str, dir: &str) -> (r: Vec<String>)
    ensures
        views(r@) == seq!["-s"@, device@, "shell"@, "find "@ + shell_quoted(dir@) + " -type f"@],
{
    let mut c = with_quoted("find ", dir);
    push_seq(&mut c, " -type f");
    let r = adb(device, shell_args(c));
    assert(views(r@) =~= seq!["-s"@, device@, "shell"@, "find "@ + shell_quoted(dir@) + " -type f"@]);
    r
}

/// The arguments that copy the local file `local` to `remote` on `device`.
pub fn push(device: &str, local: &str, remote: &str) -> (r: Vec<String>)
    ensures
        views(r@) == seq!["-s"@, device@, "push"@, local@, remote@],
{
    let r = adb(device, vec![string_from("push"), string_from(local), string_from(remote)]);
    assert(views(r@) =~= seq!["-s"@, device@, "push"@, local@, remote@]);
    r
}

/// The arguments that remove the file `path` on `device`.
pub fn delete_file(device: &str, path: &str) -> (r: Vec<String>)
    ensures
        views(r@) == seq!["-s"@, device@, "shell"@, "rm -f "@ + shell_quoted(path@)],
{
    let r = adb(device, shell_args(with_quoted("rm -f ", path)));
    assert(views(r@) =~= seq!["-s"@, device@, "shell"@, "rm -f "@ + shell_quoted(path@)]);
    r
}

/// The arguments that remove the (empty) directory `path` on `device`.
pub fn delete_dir(device: &str, path: &str) -> (r: Vec<String>)
    ensures
        views(r@) == seq!["-s"@, device@, "shell"@, "rmdir "@ + shell_quoted(path@)],
{
    let r = adb(device, shell_args(with_quoted("rmdir ", path)));
    assert(views(r@) =~= seq!["-s"@, device@, "shell"@, "rmdir "@ + shell_quoted(path@)]);
    r
}

/// The arguments that flush the file system buffers of `device`.
pub fn sync_device_fs(device: &str) -> (r: Vec<String>)
    ensures
        views(r@) == seq!["-s"@, device@, "shell"@, "sync"@],
{
    let r = adb(device, shell_args(string_from("sync")));
    assert(views(r@) =~= seq!["-s"@, device@, "shell"@, "sync"@]);
    r
}

/// The arguments that list the storage volumes of `device`.
pub fn storages_args(device: &str) -> (r: Vec<String>)
    ensures
        views(r@) == seq!["-s"@, device@, "shell"@, "ls /storage"@],
{
    let r = adb(device, shell_args(string_from("ls /storage")));
    assert(views(r@) =~= seq!["-s"@, device@, "shell"@, "ls /storage"@]);
    r
}

// ---------------------------------------------------------------------------
// Device lists
// ---------------------------------------------------------------------------

/// The device id a line of a device list names, when its state is `device`
/// (its first word, when its second word is `device`).
pub open spec fn line_device(l: Seq<char>) -> Option<Seq<char>> {
    let w = words_of(l);
    if w.len() >= 2 && w[1] == "device"@ {
        Some(w[0])
    } else {
        None
    }
}

/// The ids the lines `ls` name as attached devices.
pub open spec fn devices_in(ls: Seq<Seq<char>>) -> Set<Seq<char>> {
    Set::new(|id: Seq<char>| exists|i: int| 0 <= i < ls.len() && line_device(ls[i]) == Some(id))
}

/// The lines of `text`, without the first one when `skip_first` holds (the
/// header that `adb devices` prints).
pub open spec fn listed_lines(text: Seq<char>, skip_first: bool) -> Seq<Seq<char>> {
    if skip_first && lines_of(text).len() > 0 {
        lines_of(text).drop_first()
    } else {
        lines_of(text)
    }
}

/// The ids of the attached devices a device list names, each once.
pub fn device_ids(text: &str, skip_first: bool) -> (r: Vec<String>)
    ensures
        views(r@).no_duplicates(),
        views(r@).to_set() == devices_in(listed_lines(text@, skip_first)),
{
    let v = chars_of(text);
    let lines = line_ranges(&v);
    let device_word = chars_of("device");
    let start: usize = if skip_first && lines.len() > 0 {
        1
    } else {
        0
    };
    let ghost ls = lines_of(v@);
    let ghost listed = listed_lines(text@, skip_first);
    assert(listed =~= ls.skip(start as int));
    let mut r: Vec<String> = Vec::new();
    let mut i = start;
    assert(views(r@).to_set() =~= devices_in(ls.subrange(start as int, i as int)));
    while i < lines.len()
        invariant
            v@ == text@,
            ls == lines_of(v@),
            device_word@ == "device"@,
            lines@.len() == ls.len(),
            forall|k: int|
                #![trigger lines@[k]]
                0 <= k < lines@.len() ==> lines@[k].0 <= lines@[k].1 <= v@.len() && ls[k]
                    == v@.subrange(lines@[k].0 as int, lines@[k].1 as int),
            start <= i <= lines@.len(),
            views(r@).no_duplicates(),
            views(r@).to_set() == devices_in(ls.subrange(start as int, i as int)),
        decreases lines@.len() - i,
    {
        let (a, b) = lines[i];
        let words = word_ranges(&v, a, b);
        let ghost line = ls[i as int];
        let ghost old_set = views(r@).to_set();
        assert(line == v@.subrange(a as int, b as int));
        if words.len() >= 2 && range_eq(&v, words[1].0, words[1].1, &device_word) {
            let id = string_of_range(&v, words[0].0, words[0].1);
            assert(line_device(line) == Some(id@));
            push_unique(&mut r, id);
        } else {
            assert(line_device(line) is None);
        }
        proof {
            let pre = ls.subrange(start as int, i as int);
            let post = ls.subrange(start as int, i + 1);
            assert forall|id: Seq<char>| devices_in(post).contains(id) <==> (devices_in(
                pre,
            ).contains(id) || line_device(line) == Some(id)) by {
                if devices_in(post).contains(id) {
                    let k = choose|k: int| 0 <= k < post.len() && line_device(post[k]) == Some(id);
                    if k < pre.len() {
                        assert(pre[k] == post[k]);
                    }
                }
                if devices_in(pre).contains(id) {
                    let k = choose|k: int| 0 <= k < pre.len() && line_device(pre[k]) == Some(id);
                    assert(post[k] == pre[k]);
                }
                if line_device(line) == Some(id) {
                    assert(post[post.len() - 1] == line);
                }
            }
            assert(views(r@).to_set() =~= devices_in(post));
        }
        i = i + 1;
    }
    assert(ls.subrange(start as int, lines@.len() as int) =~= listed);
    r
}

/// The attached devices `adb devices` reported, or the error it failed with.
pub fn list_devices(o: &CommandOutput) -> (r: Result<Vec<String>, AdbError>)
    ensures
        !o.success ==> r is Err && r->Err_0 is Other && r->Err_0->Other_0@ == "adb devices: "@
            + trim(lossy_decode(o.stderr@)),
        o.success ==> r is Ok && views(r->Ok_0@).no_duplicates() && views(r->Ok_0@).to_set()
            == devices_in(listed_lines(lossy_decode(o.stdout@), true)),
{
    if !o.success {
        let e = utf8_lossy(&o.stderr);
        let v = chars_of(e.as_str());
        let (a, b) = trim_range(&v, 0, v.len());
        assert(v@.subrange(0, v@.len() as int) =~= v@);
        let mut m = string_from("adb devices: ");
        let t = string_of_range(&v, a, b);
        push_seq(&mut m, t.as_str());
        return Err(AdbError::Other(m));
    }
    let out = utf8_lossy(&o.stdout);
    Ok(device_ids(out.as_str(), true))
}

// ---------------------------------------------------------------------------
// Remote file lists
// ---------------------------------------------------------------------------

/// The path, relative to `prefix`, that a line of a `find` listing names.
pub open spec fn line_file(l: Seq<char>, prefix: Seq<char>) -> Option<Seq<char>> {
    let t = trim(l);
    if prefix.len() <= t.len() && t.take(prefix.len() as int) == prefix {
        Some(t.skip(prefix.len() as int))
    } else {
        None
    }
}

/// The relative paths the lines `ls` name below `prefix`.
pub open spec fn files_in(ls: Seq<Seq<char>>, prefix: Seq<char>) -> Set<Seq<char>> {
    Set::new(
        |f: Seq<char>| exists|i: int| 0 <= i < ls.len() && line_file(ls[i], prefix) == Some(f),
    )
}

/// `dir` without its trailing slashes, followed by one slash.
pub open spec fn dir_prefix(dir: Seq<char>) -> Seq<char> {
    trim_end_char(dir, '/') + seq!['/']
}

/// The files below `dir` that a `find <dir> -type f` run reported, as paths
/// relative to `dir`; none when the run failed.
pub fn list_files(dir: &str, outcome: &Result<String, String>) -> (r: Vec<String>)
    ensures
        views(r@).no_duplicates(),
        outcome is Err ==> r@.len() == 0,
        outcome is Ok ==> views(r@).to_set() == files_in(
            lines_of(outcome->Ok_0@),
            dir_prefix(dir@),
        ),
{
    let text = match outcome {
        Ok(t) => t,
        Err(_) => {
            return Vec::new();
        },
    };
    let dv = chars_of(dir);
    let n = trim_end_char_len(&dv, '/');
    let mut prefix: Vec<char> = Vec::new();
    let mut j: usize = 0;
    while j < n
        invariant
            n <= dv@.len(),
            j <= n,
            prefix@ == dv@.take(j as int),
        decreases n - j,
    {
        prefix.push(dv[j]);
        j = j + 1;
        assert(prefix@ =~= dv@.take(j as int));
    }
    prefix.push('/');
    assert(prefix@ =~= dir_prefix(dir@));
    let v = chars_of(text.as_str());
    let lines = line_ranges(&v);
    let ghost ls = lines_of(v@);
    let ghost pre = prefix@;
    let mut r: Vec<String> = Vec::new();
    let mut i: usize = 0;
    assert(views(r@).to_set() =~= files_in(ls.subrange(0, 0), pre));
    while i < lines.len()
        invariant
            pre == prefix@,
            ls == lines_of(v@),
            lines@.len() == ls.len(),
            forall|k: int|
                #![trigger lines@[k]]
                0 <= k < lines@.len() ==> lines@[k].0 <= lines@[k].1 <= v@.len() && ls[k]
                    == v@.subrange(lines@[k].0 as int, lines@[k].1 as int),
            i <= lines@.len(),
            views(r@).no_duplicates(),
            views(r@).to_set() == files_in(ls.subrange(0, i as int), pre),
        decreases lines@.len() - i,
    {
        let (a0, b0) = lines[i];
        let ghost line = ls[i as int];
        let (a, b) = trim_range(&v, a0, b0);
        let ghost t = trim(line);
        assert(t == v@.subrange(a as int, b as int));
        if b - a >= prefix.len() && range_eq(&v, a, a + prefix.len(), &prefix) {
            let f = string_of_range(&v, a + prefix.len(), b);
            assert(t.take(pre.len() as int) =~= v@.subrange(a as int, a + pre.len()));
            assert(t.skip(pre.len() as int) =~= f@);
            assert(line_file(line, pre) == Some(f@));
            push_unique(&mut r, f);
        } else {
            proof {
                if pre.len() <= t.len() {
                    assert(t.take(pre.len() as int) =~= v@.subrange(a as int, a + pre.len()));
                }
            }
            assert(line_file(line, pre) is None);
        }
        proof {
            let p0 = ls.subrange(0, i as int);
            let p1 = ls.subrange(0, i + 1);
            assert forall|f: Seq<char>| files_in(p1, pre).contains(f) <==> (files_in(
                p0,
                pre,
            ).contains(f) || line_file(line, pre) == Some(f)) by {
                if files_in(p1, pre).contains(f) {
                    let k = choose|k: int| 0 <= k < p1.len() && line_file(p1[k], pre) == Some(f);
                    if k < p0.len() {
                        assert(p0[k] == p1[k]);
                    }
                }
                if files_in(p0, pre).contains(f) {
                    let k = choose|k: int| 0 <= k < p0.len() && line_file(p0[k], pre) == Some(f);
                    assert(p1[k] == p0[k]);
                }
                if line_file(line, pre) == Some(f) {
                    assert(p1[p1.len() - 1] == line);
                }
            }
            assert(views(r@).to_set() =~= files_in(p1, pre));
        }
        i = i + 1;
    }
    assert(ls.subrange(0, lines@.len() as int) =~= ls);
    r
}

// ---------------------------------------------------------------------------
// Storage volumes
// ---------------------------------------------------------------------------

/// The kind of a storage volume of a device.
#[derive(Clone, Copy, Debug, PartialEq, Eq, Structural)]
pub enum StorageType {
    Internal,
    SdCard,
}

/// A storage volume of a device and the music directory on it.
#[derive(Clone, Debug, PartialEq, Eq)]
pub struct StorageInfo {
    pub name: String,
    pub path: String,
    pub storage_type: StorageType,
}

/// A storage volume as plain values.
pub struct StorageView {
    pub name: Seq<char>,
    pub path: Seq<char>,
    pub storage_type: StorageType,
}

impl View for StorageInfo {
    type V = StorageView;

    open spec fn view(&self) -> StorageView {
        StorageView { name: self.name@, path: self.path@, storage_type: self.storage_type }
    }
}

/// The internal storage, as the `emulated` volume names it.
pub open spec fn internal_storage() -> StorageView {
    StorageView {
        name: "Internal Storage"@,
        path: "/storage/emulated/0/Music"@,
        storage_type: StorageType::Internal,
    }
}

/// The internal storage under its legacy path, offered when no volume is
/// the internal one.
pub open spec fn legacy_internal_storage() -> StorageView {
    StorageView {
        name: "Internal Storage (Legacy)"@,
        path: "/sdcard/Music"@,
        storage_type: StorageType::Internal,
    }
}

/// A removable volume called `name`.
pub open spec fn sd_card_storage(name: Seq<char>) -> StorageView {
    StorageView {
        name: "SD Card ("@ + name + ")"@,
        path: "/storage/"@ + name + "/Music"@,
        storage_type: StorageType::SdCard,
    }
}

/// The volume a line of `ls /storage` names, if any: blank lines and `self`
/// name none, `emulated` is the internal storage, anything else a card.
pub open spec fn storage_of_line(l: Seq<char>) -> Option<StorageView> {
    let name = trim(l);
    if name.len() == 0 || name == "self"@ {
        None
    } else if name == "emulated"@ {
        Some(internal_storage())
    } else {
        Some(sd_card_storage(name))
    }
}

/// The volumes the lines `ls` name, in order.
pub open spec fn storages_from(ls: Seq<Seq<char>>) -> Seq<StorageView>
    decreases ls.len(),
{
    if ls.len() == 0 {
        seq![]
    } else {
        let init = storages_from(ls.drop_last());
        match storage_of_line(ls.last()) {
            Some(st) => init.push(st),
            None => init,
        }
    }
}

/// Whether one of `s` is an internal storage.
pub open spec fn has_internal(s: Seq<StorageView>) -> bool {
    exists|i: int| 0 <= i < s.len() && s[i].storage_type == StorageType::Internal
}

/// The volumes offered for a device, given what `ls /storage` gave: the
/// volumes it names, with the legacy internal storage put first when none
/// of them is internal (also when the listing failed).
pub open spec fn storages_spec(outcome: Result<Seq<char>, Seq<char>>) -> Seq<StorageView> {
    let base = match outcome {
        Ok(t) => storages_from(lines_of(t)),
        Err(_) => seq![],
    };
    if has_internal(base) {
        base
    } else {
        seq![legacy_internal_storage()] + base
    }
}

/// The plain values of a list of volumes.
pub open spec fn storage_views(v: Seq<StorageInfo>) -> Seq<StorageView> {
    v.map_values(|s: StorageInfo| s@)
}

/// The storage volumes of a device, from the outcome of `ls /storage` on it.
pub fn get_device_storages(outcome: &Result<String, String>) -> (r: Vec<StorageInfo>)
    ensures
        storage_views(r@) == storages_spec(
            match outcome {
                Ok(t) => Ok(t@),
                Err(e) => Err(e@),
            },
        ),
        exists|i: int| 0 <= i < r@.len() && r@[i].storage_type == StorageType::Internal,
        !(outcome matches Ok(t) && lists_emulated(t@)) ==> r@.len() > 0 && r@[0].name@
            == "Internal Storage (Legacy)"@ && r@[0].path@ == "/sdcard/Music"@ && r@[0].storage_type
            == StorageType::Internal,
        (outcome matches Ok(t) && lists_emulated(t@)) ==> forall|i: int|
            0 <= i < r@.len() ==> (#[trigger] r@[i]).name@ != "Internal Storage (Legacy)"@,
{
    proof {
        lemma_storages_offered(
            match outcome {
                Ok(t) => Ok(t@),
                Err(e) => Err(e@),
            },
        );
    }
    let ghost spec_outcome: Result<Seq<char>, Seq<char>> = match outcome {
        Ok(t) => Ok(t@),
        Err(e) => Err(e@),
    };
    let mut storages: Vec<StorageInfo> = Vec::new();
    let mut found_internal = false;
    if let Ok(text) = outcome {
        let v = chars_of(text.as_str());
        let lines = line_ranges(&v);
        let ghost ls = lines_of(v@);
        let self_word = chars_of("self");
        let emulated_word = chars_of("emulated");
        let mut i: usize = 0;
        assert(ls.take(0) =~= Seq::<Seq<char>>::empty());
        while i < lines.len()
            invariant
                ls == lines_of(v@),
                self_word@ == "self"@,
                emulated_word@ == "emulated"@,
                lines@.len() == ls.len(),
                forall|k: int|
                    #![trigger lines@[k]]
                    0 <= k < lines@.len() ==> lines@[k].0 <= lines@[k].1 <= v@.len() && ls[k]
                        == v@.subrange(lines@[k].0 as int, lines@[k].1 as int),
                i <= lines@.len(),
                storage_views(storages@) == storages_from(ls.take(i as int)),
                found_internal == has_internal(storage_views(storages@)),
            decreases lines@.len() - i,
        {
            let (a0, b0) = lines[i];
            let ghost line = ls[i as int];
            let (a, b) = trim_range(&v, a0, b0);
            let ghost name = trim(line);
            assert(name == v@.subrange(a as int, b as int));
            let ghost old_views = storage_views(storages@);
            proof {
                assert(ls.take(i + 1).drop_last() =~= ls.take(i as int));
                assert(ls.take(i + 1).last() == line);
            }
            if a == b || range_eq(&v, a, b, &self_word) {
                assert(storage_of_line(line) is None);
            } else if range_eq(&v, a, b, &emulated_word) {
                let st = StorageInfo {
                    name: string_from("Internal Storage"),
                    path: string_from("/storage/emulated/0/Music"),
                    storage_type: StorageType::Internal,
                };
                assert(st@ == internal_storage());
                storages.push(st);
                found_internal = true;
                proof {
                    assert(storage_views(storages@) =~= old_views.push(st@));
                    assert(storage_views(storages@)[old_views.len() as int].storage_type
                        == StorageType::Internal);
                }
            } else {
                let nm = string_of_range(&v, a, b);
                let mut name_s = string_from("SD Card (");
                push_seq(&mut name_s, nm.as_str());
                push_seq(&mut name_s, ")");
                let mut path_s = string_from("/storage/");
                push_seq(&mut path_s, nm.as_str());
                push_seq(&mut path_s, "/Music");
                let st = StorageInfo { name: name_s, path: path_s, storage_type: StorageType::SdCard };
                assert(st@ == sd_card_storage(name));
                storages.push(st);
                proof {
                    let nv = storage_views(storages@);
                    assert(nv =~= old_views.push(st@));
                    if has_internal(nv) {
                        let k = choose|k: int|
                            0 <= k < nv.len() && nv[k].storage_type == StorageType::Internal;
                        assert(k < old_views.len());
                        assert(old_views[k] == nv[k]);
                    }
                    if has_internal(old_views) {
                        let k = choose|k: int|
                            0 <= k < old_views.len() && old_views[k].storage_type
                                == StorageType::Internal;
                        assert(nv[k] == old_views[k]);
                    }
                }
            }
            i = i + 1;
        }
        assert(ls.take(lines@.len() as int) =~= ls);
    } else {
        assert(storage_views(storages@) =~= Seq::<StorageView>::empty());
    }
    assert(storage_views(storages@) == match spec_outcome {
        Ok(t) => storages_from(lines_of(t)),
        Err(_) => Seq::<StorageView>::empty(),
    });
    if !found_internal {
        let ghost old_views = storage_views(storages@);
        let legacy = StorageInfo {
            name: string_from("Internal Storage (Legacy)"),
            path: string_from("/sdcard/Music"),
            storage_type: StorageType::Internal,
        };
        storages.insert(0, legacy);
        assert(storage_views(storages@) =~= seq![legacy_internal_storage()] + old_views);
    }
    proof {
        assert forall|i: int| 0 <= i < storages@.len() implies #[trigger] storage_views(storages@)[i]
            == storages@[i]@ by {}
        let sv = storage_views(storages@);
        let j = choose|j: int| 0 <= j < sv.len() && sv[j].storage_type == StorageType::Internal;
        assert(sv[j] == storages@[j]@);
        if storages@.len() > 0 {
            assert(sv[0] == storages@[0]@);
        }
        if outcome matches Ok(t) && lists_emulated(t@) {
            assert forall|i: int| 0 <= i < storages@.len() implies (#[trigger] storages@[i]).name@
                != "Internal Storage (Legacy)"@ by {
                assert(sv[i] == storages@[i]@);
                assert(sv[i] == storages_spec(spec_outcome)[i]);
            }
        }
    }
    storages
}

/// Whether a line of the listing `t` names the `emulated` volume.
pub open spec fn lists_emulated(t: Seq<char>) -> bool {
    exists|k: int| 0 <= k < lines_of(t).len() && trim(#[trigger] lines_of(t)[k]) == "emulated"@
}

/// The volumes named by lines hold an internal one exactly when a line
/// names `emulated`; each is the internal storage or a card.
proof fn lemma_storages_from_lines(ls: Seq<Seq<char>>)
    ensures
        has_internal(storages_from(ls)) <==> exists|k: int| 0 <= k < ls.len() && trim(#[trigger] ls[k]) == "emulated"@,
        forall|i: int|
            0 <= i < storages_from(ls).len() ==> #[trigger] storages_from(ls)[i] == internal_storage() || exists|
                n: Seq<char>,
            | storages_from(ls)[i] == sd_card_storage(n),
    decreases ls.len(),
{
    if ls.len() > 0 {
        let init = ls.drop_last();
        lemma_storages_from_lines(init);
        let l = ls.last();
        let si = storages_from(init);
        let so = storages_from(ls);
        reveal_strlit("emulated");
        reveal_strlit("self");
        assert forall|k: int| 0 <= k < init.len() implies init[k] == ls[k] by {}
        if has_internal(so) {
            let j = choose|j: int| 0 <= j < so.len() && so[j].storage_type == StorageType::Internal;
            if j < si.len() {
                assert(so[j] == si[j]);
                assert(has_internal(si));
                let k = choose|k: int| 0 <= k < init.len() && trim(#[trigger] init[k]) == "emulated"@;
                assert(trim(ls[k]) == "emulated"@);
            } else {
                assert(storage_of_line(l) matches Some(st) && st.storage_type == StorageType::Internal);
                assert(trim(l) == "emulated"@);
                assert(trim(ls[ls.len() - 1]) == "emulated"@);
            }
        }
        if exists|k: int| 0 <= k < ls.len() && trim(#[trigger] ls[k]) == "emulated"@ {
            let k = choose|k: int| 0 <= k < ls.len() && trim(#[trigger] ls[k]) == "emulated"@;
            if k < init.len() {
                assert(trim(init[k]) == "emulated"@);
                let j = choose|j: int| 0 <= j < si.len() && si[j].storage_type == StorageType::Internal;
                assert(so[j] == si[j]);
            } else {
                assert(storage_of_line(l) == Some(internal_storage()));
                assert(so[si.len() as int] == internal_storage());
            }
        }
        assert forall|i: int| 0 <= i < so.len() implies #[trigger] so[i] == internal_storage() || exists|
            n: Seq<char>,
        | so[i] == sd_card_storage(n) by {
            if i < si.len() {
                assert(so[i] == si[i]);
            } else {
                let name = trim(l);
                if name == "emulated"@ {
                } else {
                    assert(so[i] == sd_card_storage(name));
                }
            }
        }
    } else {
        assert(!has_internal(storages_from(ls)));
    }
}

/// The volumes offered for a device always hold an internal one; when the
/// listing (or its failure) names no `emulated` volume, the legacy internal
/// storage comes first, and otherwise it is not offered at all.
pub proof fn lemma_storages_offered(outcome: Result<Seq<char>, Seq<char>>)
    ensures
        has_internal(storages_spec(outcome)),
        !(outcome matches Ok(t) && lists_emulated(t)) ==> storages_spec(outcome).len() > 0 && storages_spec(
            outcome,
        )[0] == legacy_internal_storage(),
        (outcome matches Ok(t) && lists_emulated(t)) ==> forall|i: int|
            0 <= i < storages_spec(outcome).len() ==> (#[trigger] storages_spec(outcome)[i]).name
                != "Internal Storage (Legacy)"@,
{
    reveal_strlit("Internal Storage (Legacy)");
    reveal_strlit("Internal Storage");
    reveal_strlit("SD Card (");
    let r = storages_spec(outcome);
    match outcome {
        Ok(t) => {
            lemma_storages_from_lines(lines_of(t));
            let base = storages_from(lines_of(t));
            if lists_emulated(t) {
                assert(has_internal(base));
                assert(r == base);
                assert forall|i: int| 0 <= i < r.len() implies (#[trigger] r[i]).name != "Internal Storage (Legacy)"@ by {
                    assert(base[i] == internal_storage() || exists|n: Seq<char>| base[i] == sd_card_storage(n));
                    if base[i] != internal_storage() {
                        let n = choose|n: Seq<char>| base[i] == sd_card_storage(n);
                        assert(r[i].name[0] == 'S');
                    } else {
                        assert(r[i].name.len() == 16);
                    }
                }
            } else {
                assert(!has_internal(base));
                assert(r[0] == legacy_internal_storage());
            }
        },
        Err(_) => {
            assert(r[0] == legacy_internal_storage());
        },
    }
    assert(r[0] == legacy_internal_storage() || has_internal(r));
    if !has_internal(r) {
        assert(r[0].storage_type == StorageType::Internal);
    }
}

} // verus!
