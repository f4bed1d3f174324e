use vstd::prelude::*;

use crate::command::same_text;

verus! {

/// What a `Config` holds, as plain values.
pub struct ConfigView {
    pub source: Seq<char>,
    pub destination: Seq<char>,
    pub exclude: Seq<char>,
    pub dry_run: bool,
    pub delete: bool,
    pub sym_uploads: Seq<char>,
}

/// The settings of a migration.
pub struct Config {
    pub source: String,
    pub destination: String,
    pub exclude: String,
    pub dry_run: bool,
    pub delete: bool,
    pub sym_uploads: String,
}

impl View for Config {
    type V = ConfigView;

    open spec fn view(&self) -> ConfigView {
        ConfigView {
            source: self.source@,
            destination: self.destination@,
            exclude: self.exclude@,
            dry_run: self.dry_run,
            delete: self.delete,
            sym_uploads: self.sym_uploads@,
        }
    }
}

/// The part of `s` before the first `c`; all of `s` when it holds no `c`.
pub open spec fn before_char(s: Seq<char>, c: char) -> Seq<char>
    decreases s.len(),
{
    if s.len() == 0 {
        s
    } else if s[0] == c {
        Seq::empty()
    } else {
        seq![s[0]] + before_char(s.drop_first(), c)
    }
}

/// The part of `s` after the first `c`; empty when it holds no `c`.
pub open spec fn after_char(s: Seq<char>, c: char) -> Seq<char> {
    let head = before_char(s, c);
    if head.len() < s.len() {
        s.subrange(head.len() + 1int, s.len() as int)
    } else {
        Seq::empty()
    }
}

/// The setting that a name selects, given the value written for it; `None`
/// for a name that selects none. The two switches are set by their name alone.
pub open spec fn apply_setting(c: ConfigView, name: Seq<char>, value: Seq<char>) -> Option<
    ConfigView,
> {
    if name == "source"@ {
        Some(ConfigView { source: value, ..c })
    } else if name == "destination"@ {
        Some(ConfigView { destination: value, ..c })
    } else if name == "exclude"@ {
        Some(ConfigView { exclude: value, ..c })
    } else if name == "dry-run"@ {
        Some(ConfigView { dry_run: true, ..c })
    } else if name == "delete"@ {
        Some(ConfigView { delete: true, ..c })
    } else if name == "sym-uploads"@ {
        Some(ConfigView { sym_uploads: value, ..c })
    } else {
        None
    }
}

/// The setting name of a command-line key: what follows its leading `--`.
pub open spec fn flag_name(key: Seq<char>) -> Option<Seq<char>> {
    if key.len() >= 2 && key[0] == '-' && key[1] == '-' {
        Some(key.subrange(2, key.len() as int))
    } else {
        None
    }
}

/// The key of a command-line argument `--key=value`: the text before the first `=`.
pub open spec fn arg_key(arg: Seq<char>) -> Seq<char> {
    before_char(arg, '=')
}

/// The value of a command-line argument: the text after the first `=`, up
/// to a second `=` if there is one.
pub open spec fn arg_value(arg: Seq<char>) -> Seq<char> {
    before_char(after_char(arg, '='), '=')
}

/// The settings after one command-line argument; `None` when its key names no setting.
pub open spec fn apply_arg(c: ConfigView, arg: Seq<char>) -> Option<ConfigView> {
    match flag_name(arg_key(arg)) {
        Some(name) => apply_setting(c, name, arg_value(arg)),
        None => None,
    }
}

/// The settings after the arguments `args`, in order; an argument whose key
/// names no setting changes nothing.
pub open spec fn after_args(c: ConfigView, args: Seq<Seq<char>>) -> ConfigView
    decreases args.len(),
{
    if args.len() == 0 {
        c
    } else {
        let next = match apply_arg(c, args[0]) {
            Some(n) => n,
            None => c,
        };
        after_args(next, args.drop_first())
    }
}

/// The keys of the arguments that name no setting, in order.
pub open spec fn unknown_args(args: Seq<Seq<char>>) -> Seq<Seq<char>>
    decreases args.len(),
{
    if args.len() == 0 {
        Seq::empty()
    } else {
        let head = if apply_arg(ConfigView::default_view(), args[0]).is_none() {
            seq![arg_key(args[0])]
        } else {
            Seq::empty()
        };
        head + unknown_args(args.drop_first())
    }
}

/// The arguments after the first, which is the program's name, as text.
pub open spec fn given_args(args: Seq<&str>) -> Seq<Seq<char>> {
    if args.len() == 0 {
        Seq::empty()
    } else {
        args.subrange(1, args.len() as int).map_values(|a: &str| a@)
    }
}

/// Whitespace as Unicode's White_Space property gives it, the set that
/// `char::is_whitespace` and `str::trim` use.
pub open spec fn is_space(c: char) -> bool {
    ('\u{9}' <= c && c <= '\u{D}') || c == ' ' || c == '\u{85}' || c == '\u{A0}'
        || c == '\u{1680}' || ('\u{2000}' <= c && c <= '\u{200A}') || c == '\u{2028}'
        || c == '\u{2029}' || c == '\u{202F}' || c == '\u{205F}' || c == '\u{3000}'
}

pub open spec fn trim_start(s: Seq<char>) -> Seq<char>
    decreases s.len(),
{
    if s.len() > 0 && is_space(s[0]) {
        trim_start(s.drop_first())
    } else {
        s
    }
}

pub open spec fn trim_end(s: Seq<char>) -> Seq<char>
    decreases s.len(),
{
    if s.len() > 0 && is_space(s.last()) {
        trim_end(s.drop_last())
    } else {
        s
    }
}

/// `s` without whitespace at either end.
pub open spec fn trim(s: Seq<char>) -> Seq<char> {
    trim_end(trim_start(s))
}

/// A line of a settings file holds nothing but whitespace.
pub open spec fn is_blank(line: Seq<char>) -> bool {
    trim(line).len() == 0
}

/// The key of a settings line `key = value`: the trimmed text before the first `=`.
pub open spec fn line_key(line: Seq<char>) -> Seq<char> {
    trim(before_char(trim(line), '='))
}

/// The value of a settings line: the trimmed text after the first `=`, up
/// to a second `=` if there is one.
pub open spec fn line_value(line: Seq<char>) -> Seq<char> {
    trim(before_char(after_char(trim(line), '='), '='))
}

/// A line that is not blank and whose key names no setting.
pub open spec fn is_unknown_line(line: Seq<char>) -> bool {
    !is_blank(line) && apply_setting(ConfigView::default_view(), line_key(line), line_value(line)).is_none()
}

/// The settings after one line of a settings file.
pub open spec fn apply_line(c: ConfigView, line: Seq<char>) -> ConfigView {
    if is_blank(line) {
        c
    } else {
        match apply_setting(c, line_key(line), line_value(line)) {
            Some(n) => n,
            None => c,
        }
    }
}

/// The line of `s` that starts at position `p`.
pub open spec fn line_at(s: Seq<char>, p: int) -> Seq<char> {
    before_char(s.subrange(p, s.len() as int), '\n')
}

/// The settings after the lines of `s` from position `p` on, in order.
pub open spec fn after_lines(c: ConfigView, s: Seq<char>, p: int) -> ConfigView
    decreases s.len() - p,
{
    if p < 0 || p >= s.len() {
        c
    } else {
        let next = apply_line(c, line_at(s, p));
        let q = p + line_at(s, p).len() + 1;
        if q < s.len() {
            after_lines(next, s, q)
        } else {
            next
        }
    }
}

/// The keys of the lines of `s`, from position `p` on, that name no setting.
pub open spec fn unknown_lines(s: Seq<char>, p: int) -> Seq<Seq<char>>
    decreases s.len() - p,
{
    if p < 0 || p >= s.len() {
        Seq::empty()
    } else {
        let head = if is_unknown_line(line_at(s, p)) {
            seq![line_key(line_at(s, p))]
        } else {
            Seq::empty()
        };
        let q = p + line_at(s, p).len() + 1;
        if q < s.len() {
            head + unknown_lines(s, q)
        } else {
            head
        }
    }
}

pub open spec fn texts(v: Seq<String>) -> Seq<Seq<char>> {
    v.map_values(|s: String| s@)
}

impl ConfigView {
    pub open spec fn default_view() -> ConfigView {
        ConfigView {
            source: "./"@,
            destination: "./"@,
            exclude: ""@,
            dry_run: false,
            delete: false,
            sym_uploads: ""@,
        }
    }
}

proof fn lemma_trim_start(s: Seq<char>, a: int)
    requires
        0 <= a <= s.len(),
        forall|j: int| 0 <= j < a ==> is_space(s[j]),
        a == s.len() || !is_space(s[a]),
    ensures
        trim_start(s) == s.subrange(a, s.len() as int),
    decreases s.len(),
{
    if a > 0 {
        lemma_trim_start(s.drop_first(), a - 1);
        assert(s.drop_first().subrange(a - 1, s.len() - 1) =~= s.subrange(a, s.len() as int));
    } else {
        assert(s.subrange(0, s.len() as int) =~= s);
    }
}

proof fn lemma_trim_end(s: Seq<char>, b: int)
    requires
        0 <= b <= s.len(),
        forall|j: int| b <= j < s.len() ==> is_space(s[j]),
        b == 0 || !is_space(s[b - 1]),
    ensures
        trim_end(s) == s.subrange(0, b),
    decreases s.len(),
{
    if b < s.len() {
        lemma_trim_end(s.drop_last(), b);
        assert(s.drop_last().subrange(0, b) =~= s.subrange(0, b));
    } else {
        assert(s.subrange(0, s.len() as int) =~= s);
    }
}

proof fn lemma_before_char(s: Seq<char>, c: char, k: int)
    requires
        0 <= k <= s.len(),
        forall|j: int| 0 <= j < k ==> s[j] != c,
        k == s.len() || s[k] == c,
    ensures
        before_char(s, c) == s.subrange(0, k),
    decreases s.len(),
{
    if s.len() > 0 && k > 0 {
        lemma_before_char(s.drop_first(), c, k - 1);
        assert(before_char(s, c) =~= s.subrange(0, k));
    } else {
        assert(before_char(s, c) =~= s.subrange(0, k));
    }
}

/// The position of the first `c` in `s` at or after `from`; the length of `s`
/// when there is none.
fn find_char(s: &str, c: char, from: usize) -> (k: usize)
    requires
        from <= s@.len(),
    ensures
        from <= k <= s@.len(),
        forall|j: int| from <= j < k ==> s@[j] != c,
        k == s@.len() || s@[k as int] == c,
{
    let n = s.unicode_len();
    let mut k = from;
    while k < n && s.get_char(k) != c
        invariant
            n == s@.len(),
            from <= k <= n,
            forall|j: int| from <= j < k ==> s@[j] != c,
        decreases n - k,
    {
        k = k + 1;
    }
    k
}

/// Splits `s` at its first `c`: the text before it, and the text after it
/// (empty when `s` holds no `c`).
fn split_once(s: &str, c: char) -> (r: (&str, &str))
    ensures
        r.0@ == before_char(s@, c),
        r.1@ == after_char(s@, c),
{
    let n = s.unicode_len();
    let k = find_char(s, c, 0);
    proof {
        lemma_before_char(s@, c, k as int);
    }
    if k < n {
        (s.substring_char(0, k), s.substring_char(k + 1, n))
    } else {
        (s, s.substring_char(n, n))
    }
}

/// `s` without whitespace at either end.
fn trim_text(s: &str) -> (r: &str)
    ensures
        r@ == trim(s@),
{
    let n = s.unicode_len();
    let mut a: usize = 0;
    while a < n && is_space_exec(s.get_char(a))
        invariant
            n == s@.len(),
            a <= n,
            forall|j: int| 0 <= j < a ==> is_space(s@[j]),
        decreases n - a,
    {
        a = a + 1;
    }
    proof {
        lemma_trim_start(s@, a as int);
    }
    let ghost t = s@.subrange(a as int, n as int);
    let mut b: usize = n;
    while b > a && is_space_exec(s.get_char(b - 1))
        invariant
            n == s@.len(),
            a <= b <= n,
            t == s@.subrange(a as int, n as int),
            forall|j: int| b <= j < n ==> is_space(s@[j]),
        decreases b,
    {
        b = b - 1;
    }
    proof {
        lemma_trim_end(t, b - a);
        assert(t.subrange(0, b - a) =~= s@.subrange(a as int, b as int));
    }
    s.substring_char(a, b)
}

fn is_space_exec(c: char) -> (r: bool)
    ensures
        r == is_space(c),
{
    ('\u{9}' <= c && c <= '\u{D}') || c == ' ' || c == '\u{85}' || c == '\u{A0}'
        || c == '\u{1680}' || ('\u{2000}' <= c && c <= '\u{200A}') || c == '\u{2028}'
        || c == '\u{2029}' || c == '\u{202F}' || c == '\u{205F}' || c == '\u{3000}'
}

impl Config {
    /// The settings used when nothing else is given: source and destination
    /// are the current directory, nothing is excluded, both switches are off.
    pub fn new() -> (r: Config)
        ensures
            r@ == ConfigView::default_view(),
    {
        Config {
            source: String::from_str("./"),
            destination: String::from_str("./"),
            exclude: String::from_str(""),
            dry_run: false,
            delete: false,
            sym_uploads: String::from_str(""),
        }
    }

    /// Applies the setting that `name` selects; false when it selects none.
    fn set(&mut self, name: &str, value: &str) -> (known: bool)
        ensures
            known == apply_setting(old(self)@, name@, value@).is_some(),
            known ==> final(self)@ == apply_setting(old(self)@, name@, value@).unwrap(),
            !known ==> final(self)@ == old(self)@,
    {
        if same_text(name, "source") {
            self.source = String::from_str(value);
        } else if same_text(name, "destination") {
            self.destination = String::from_str(value);
        } else if same_text(name, "exclude") {
            self.exclude = String::from_str(value);
        } else if same_text(name, "dry-run") {
            self.dry_run = true;
        } else if same_text(name, "delete") {
            self.delete = true;
        } else if same_text(name, "sym-uploads") {
            self.sym_uploads = String::from_str(value);
        } else {
            return false;
        }
        true
    }

    /// Applies one `--key=value` argument; the key when it names no setting.
    fn apply_arg(&mut self, arg: &str) -> (unknown: Option<String>)
        ensures
            final(self)@ == (match apply_arg(old(self)@, arg@) {
                Some(n) => n,
                None => old(self)@,
            }),
            apply_arg(old(self)@, arg@).is_none() ==> unknown.is_some() && unknown.unwrap()@
                == arg_key(arg@),
            apply_arg(old(self)@, arg@).is_some() ==> unknown.is_none(),
    {
        let (key, rest) = split_once(arg, '=');
        let (value, _) = split_once(rest, '=');
        let n = key.unicode_len();
        let known = if n >= 2 && key.get_char(0) == '-' && key.get_char(1) == '-' {
            self.set(key.substring_char(2, n), value)
        } else {
            false
        };
        if known {
            None
        } else {
            Some(String::from_str(key))
        }
    }

    /// Reads the settings from command-line arguments of the form
    /// `--key=value`, skipping the first, which is the program's name. The
    /// keys are `--source`, `--destination`, `--exclude`, `--sym-uploads`,
    /// and the switches `--dry-run` and `--delete`. Returns the keys of the
    /// arguments that name no setting, in order; those change nothing.
    pub fn from_args(&mut self, args: &Vec<&str>) -> (unknown: Vec<String>)
        ensures
            final(self)@ == after_args(old(self)@, given_args(args@)),
            texts(unknown@) == unknown_args(given_args(args@)),
    {
        let ghost all = given_args(args@);
        let mut unknown: Vec<String> = Vec::new();
        if args.len() == 0 {
            assert(texts(unknown@) =~= Seq::<Seq<char>>::empty());
            return unknown;
        }
        let ghost start = self@;
        assert(all.subrange(0, all.len() as int) =~= all);
        assert(texts(unknown@) + unknown_args(all) =~= unknown_args(all));
        let mut i: usize = 1;
        while i < args.len()
            invariant
                1 <= i <= args@.len(),
                all == args@.subrange(1, args@.len() as int).map_values(|a: &str| a@),
                after_args(start, all) == after_args(
                    self@,
                    all.subrange(i - 1, all.len() as int),
                ),
                texts(unknown@) + unknown_args(all.subrange(i - 1, all.len() as int))
                    == unknown_args(all),
            decreases args@.len() - i,
        {
            let ghost rest = all.subrange(i - 1, all.len() as int);
            let ghost before = self@;
            assert(rest[0] == args@[i as int]@);
            assert(rest.drop_first() =~= all.subrange(i as int, all.len() as int));
            let found = self.apply_arg(args[i]);
            assert(apply_arg(ConfigView::default_view(), rest[0]).is_none() == apply_arg(before, rest[0]).is_none());
            match found {
                Some(key) => {
                    assert(texts(unknown@.push(key)) =~= texts(unknown@) + seq![key@]);
                    unknown.push(key);
                },
                None => {},
            }
            assert(texts(unknown@) + unknown_args(all.subrange(i as int, all.len() as int)) =~= unknown_args(all)) by {
                assert(unknown_args(rest) == (if apply_arg(ConfigView::default_view(), rest[0]).is_none() {
                    seq![arg_key(rest[0])]
                } else {
                    Seq::empty()
                }) + unknown_args(rest.drop_first()));
            }
            i = i + 1;
        }
        assert(all.subrange(all.len() as int, all.len() as int) =~= Seq::<Seq<char>>::empty());
        assert(texts(unknown@) + Seq::<Seq<char>>::empty() =~= texts(unknown@));
        unknown
    }

    /// Reads the settings from the text of a settings file: one `key = value`
    /// per line, with the keys `source`, `destination`, `exclude`,
    /// `sym-uploads`, and the switches `dry-run` and `delete`, starting from
    /// the defaults of `new`. Whitespace around a line, a key or a value is
    /// ignored, and so are blank lines. Returns the settings and the keys of
    /// the lines that name no setting, in order; those change nothing.
    pub fn from_file(contents: &str) -> (r: (Config, Vec<String>))
        ensures
            r.0@ == after_lines(ConfigView::default_view(), contents@, 0),
            texts(r.1@) == unknown_lines(contents@, 0),
    {
        let ghost s = contents@;
        let n = contents.unicode_len();
        let mut config = Config::new();
        let mut unknown: Vec<String> = Vec::new();
        let mut p: usize = 0;
        assert(texts(unknown@) + unknown_lines(s, 0) =~= unknown_lines(s, 0));
        while p < n
            invariant
                n == s.len(),
                s == contents@,
                p <= n,
                after_lines(ConfigView::default_view(), s, 0) == after_lines(config@, s, p as int),
                texts(unknown@) + unknown_lines(s, p as int) == unknown_lines(s, 0),
            decreases n - p,
        {
            let k = find_char(contents, '\n', p);
            let ghost rest = s.subrange(p as int, n as int);
            proof {
                lemma_before_char(rest, '\n', k - p);
                assert(rest.subrange(0, k - p) =~= s.subrange(p as int, k as int));
            }
            let line = contents.substring_char(p, k);
            assert(line@ == line_at(s, p as int));
            let ghost before = config@;
            let found = config.apply_line(line);
            match found {
                Some(key) => {
                    assert(texts(unknown@.push(key)) =~= texts(unknown@) + seq![key@]);
                    unknown.push(key);
                },
                None => {},
            }
            if k < n {
                p = k + 1;
            } else {
                p = n;
            }
            assert(texts(unknown@) + unknown_lines(s, p as int) =~= unknown_lines(s, 0));
        }
        assert(texts(unknown@) + Seq::<Seq<char>>::empty() =~= texts(unknown@));
        (config, unknown)
    }

    /// Applies one line of a settings file; the key when the line is not
    /// blank and its key names no setting.
    fn apply_line(&mut self, line: &str) -> (unknown: Option<String>)
        ensures
            final(self)@ == apply_line(old(self)@, line@),
            is_unknown_line(line@) ==> unknown.is_some() && unknown.unwrap()@ == line_key(line@),
            !is_unknown_line(line@) ==> unknown.is_none(),
    {
        let ghost before = self@;
        let t = trim_text(line);
        if t.unicode_len() == 0 {
            return None;
        }
        let (key_part, rest) = split_once(t, '=');
        let (value_part, _) = split_once(rest, '=');
        let key = trim_text(key_part);
        let value = trim_text(value_part);
        assert(apply_setting(ConfigView::default_view(), key@, value@).is_none() == apply_setting(before, key@, value@).is_none());
        if self.set(key, value) {
            None
        } else {
            Some(String::from_str(key))
        }
    }
}

} // verus!
