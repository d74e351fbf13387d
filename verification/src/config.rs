//! Configuration: the command-line grammar and the URL-list filter.
//!
//! The binary collects the raw argument strings and file lines; everything
//! that decides what they mean — which flags exist, how numbers are read,
//! which lines count as URLs — is verified here.

use vstd::prelude::*;

verus! {

/// A decimal digit.
pub open spec fn is_digit(c: char) -> bool {
    48 <= c as u32 <= 57
}

/// A non-empty string of decimal digits.
pub open spec fn is_dec_digits(s: Seq<char>) -> bool {
    s.len() > 0 && forall|i: int| 0 <= i < s.len() ==> is_digit(#[trigger] s[i])
}

/// The value of a digit string, most significant digit first.
pub open spec fn dec_val(s: Seq<char>) -> int
    decreases s.len(),
{
    if s.len() == 0 {
        0
    } else {
        dec_val(s.drop_last()) * 10 + (s.last() as u32 - 48)
    }
}

/// The digits of a numeral: an optional single leading plus sign is not
/// part of the value.
pub open spec fn numeral_digits(s: Seq<char>) -> Seq<char> {
    if s.len() > 0 && s[0] == '+' {
        s.drop_first()
    } else {
        s
    }
}

/// A well-formed unsigned numeral: an optional leading plus sign followed
/// by at least one decimal digit.
pub open spec fn is_numeral(s: Seq<char>) -> bool {
    is_dec_digits(numeral_digits(s))
}

/// The value of a numeral.
pub open spec fn numeral_val(s: Seq<char>) -> int {
    dec_val(numeral_digits(s))
}

/// A digit string denotes a non-negative value, and extending it only
/// grows the value: every prefix denotes at most what the whole denotes.
proof fn lemma_dec_val_prefix_bound(s: Seq<char>, i: int)
    requires
        0 <= i <= s.len(),
        forall|j: int| 0 <= j < s.len() ==> is_digit(#[trigger] s[j]),
    ensures
        dec_val(s.subrange(0, i)) >= 0,
        dec_val(s) >= dec_val(s.subrange(0, i)),
    decreases s.len() - i,
{
    if i == s.len() {
        assert(s.subrange(0, i) =~= s);
        lemma_dec_val_nonneg(s);
    } else {
        lemma_dec_val_prefix_bound(s, i + 1);
        lemma_dec_val_nonneg(s.subrange(0, i));
        assert(s.subrange(0, i + 1).drop_last() =~= s.subrange(0, i));
        assert(dec_val(s.subrange(0, i + 1)) == dec_val(s.subrange(0, i)) * 10 + (s[i] as u32
            - 48));
    }
}

/// A digit string never denotes a negative value.
proof fn lemma_dec_val_nonneg(s: Seq<char>)
    requires
        forall|j: int| 0 <= j < s.len() ==> is_digit(#[trigger] s[j]),
    ensures
        dec_val(s) >= 0,
    decreases s.len(),
{
    if s.len() > 0 {
        lemma_dec_val_nonneg(s.drop_last());
    }
}

/// Whether two string slices hold the same characters.
pub fn str_eq(a: &str, b: &str) -> (r: bool)
    ensures
        r == (a@ == b@),
{
    let na = a.unicode_len();
    let nb = b.unicode_len();
    if na != nb {
        return false;
    }
    let mut i: usize = 0;
    while i < na
        invariant
            i <= na,
            na == a@.len(),
            na == b@.len(),
            forall|j: int| 0 <= j < i ==> a@[j] == b@[j],
        decreases na - i,
    {
        if a.get_char(i) != b.get_char(i) {
            return false;
        }
        i = i + 1;
    }
    proof {
        assert(a@ =~= b@);
    }
    true
}

/// Read an unsigned numeral, an optional leading plus sign followed by
/// decimal digits: `Some` exactly when the string is well-formed and its
/// value fits in a `u64`.
pub fn parse_u64(s: &str) -> (r: Option<u64>)
    ensures
        (match r {
            Some(v) => is_numeral(s@) && numeral_val(s@) == v,
            None => !is_numeral(s@) || numeral_val(s@) > u64::MAX,
        }),
{
    let n = s.unicode_len();
    if n == 0 {
        return None;
    }
    let start: usize = if s.get_char(0) == '+' {
        1
    } else {
        0
    };
    let ghost part = numeral_digits(s@);
    proof {
        assert(part =~= s@.subrange(start as int, n as int));
    }
    if start == n {
        return None;
    }
    let mut acc: u64 = 0;
    let mut i: usize = start;
    proof {
        assert(part.subrange(0, 0) =~= Seq::<char>::empty());
    }
    while i < n
        invariant
            start <= i <= n,
            n == s@.len(),
            n > start,
            part == numeral_digits(s@),
            part =~= s@.subrange(start as int, n as int),
            forall|j: int| 0 <= j < i - start ==> is_digit(#[trigger] part[j]),
            acc == dec_val(part.subrange(0, i - start)),
        decreases n - i,
    {
        let c = s.get_char(i);
        proof {
            assert(part[i - start] == s@[i as int]);
        }
        let code = c as u32;
        if code < 48 || code > 57 {
            return None;
        }
        let d = (code - 48) as u64;
        proof {
            assert(part.subrange(0, i - start + 1).drop_last() =~= part.subrange(0, i - start));
        }
        let shifted = match acc.checked_mul(10) {
            Some(x) => x,
            None => {
                proof {
                    if is_numeral(s@) {
                        lemma_dec_val_prefix_bound(part, i - start + 1);
                    }
                }
                return None;
            },
        };
        let next = match shifted.checked_add(d) {
            Some(x) => x,
            None => {
                proof {
                    if is_numeral(s@) {
                        lemma_dec_val_prefix_bound(part, i - start + 1);
                    }
                }
                return None;
            },
        };
        acc = next;
        i = i + 1;
    }
    proof {
        assert(part.subrange(0, n - start) =~= part);
    }
    Some(acc)
}


/// The element-wise views of a sequence of strings.
pub open spec fn string_views(ss: Seq<String>) -> Seq<Seq<char>> {
    Seq::new(ss.len(), |i: int| ss[i]@)
}

/// Ghost model of a parsed configuration.
pub ghost struct SpecConfig {
    pub file_path: Option<Seq<char>>,
    pub urls: Seq<Seq<char>>,
    pub workers: int,
    pub timeout_secs: int,
    pub retries: int,
}

/// Ghost model of a rejected argument list.
pub ghost enum SpecArgError {
    /// A flag that takes a value stood last; carries the flag.
    MissingValue { flag: Seq<char> },
    /// The value after a numeric flag was not a number in range; carries
    /// the flag.
    InvalidNumber { flag: Seq<char> },
    /// An argument starting with `--` that is not a known flag.
    UnknownFlag { flag: Seq<char> },
    /// Neither a URL file nor any URL argument was given.
    NoUrls,
}

/// The defaults a run starts from: four workers, a five-second per-attempt
/// timeout, no retries.
pub open spec fn spec_default_config() -> SpecConfig {
    SpecConfig {
        file_path: None,
        urls: Seq::empty(),
        workers: 4,
        timeout_secs: 5,
        retries: 0,
    }
}

/// An argument that looks like a flag: it starts with `--`.
pub open spec fn looks_like_flag(a: Seq<char>) -> bool {
    a.len() >= 2 && a[0] == '-' && a[1] == '-'
}

/// The command-line grammar, one argument at a time: `--file`, `--workers`,
/// `--timeout` and `--retries` each take the next argument as their value
/// (later occurrences overwrite earlier ones), any other argument starting
/// with `--` is an unknown flag, and everything else is a URL, kept in
/// order.
pub open spec fn spec_parse_rec(args: Seq<Seq<char>>, acc: SpecConfig) -> Result<
    SpecConfig,
    SpecArgError,
>
    decreases args.len(),
{
    if args.len() == 0 {
        Ok(acc)
    } else {
        let a = args[0];
        if a == "--file"@ {
            if args.len() < 2 {
                Err(SpecArgError::MissingValue { flag: a })
            } else {
                spec_parse_rec(args.skip(2), SpecConfig { file_path: Some(args[1]), ..acc })
            }
        } else if a == "--workers"@ {
            if args.len() < 2 {
                Err(SpecArgError::MissingValue { flag: a })
            } else if !(is_numeral(args[1]) && numeral_val(args[1]) <= usize::MAX) {
                Err(SpecArgError::InvalidNumber { flag: a })
            } else {
                spec_parse_rec(args.skip(2), SpecConfig { workers: numeral_val(args[1]), ..acc })
            }
        } else if a == "--timeout"@ {
            if args.len() < 2 {
                Err(SpecArgError::MissingValue { flag: a })
            } else if !(is_numeral(args[1]) && numeral_val(args[1]) <= u64::MAX) {
                Err(SpecArgError::InvalidNumber { flag: a })
            } else {
                spec_parse_rec(args.skip(2), SpecConfig { timeout_secs: numeral_val(args[1]), ..acc })
            }
        } else if a == "--retries"@ {
            if args.len() < 2 {
                Err(SpecArgError::MissingValue { flag: a })
            } else if !(is_numeral(args[1]) && numeral_val(args[1]) <= u32::MAX) {
                Err(SpecArgError::InvalidNumber { flag: a })
            } else {
                spec_parse_rec(args.skip(2), SpecConfig { retries: numeral_val(args[1]), ..acc })
            }
        } else if looks_like_flag(a) {
            Err(SpecArgError::UnknownFlag { flag: a })
        } else {
            spec_parse_rec(args.skip(1), SpecConfig { urls: acc.urls.push(a), ..acc })
        }
    }
}

/// The whole argument list: the grammar above, then the demand that a URL
/// file or at least one URL argument was given.
pub open spec fn spec_parse_args(args: Seq<Seq<char>>) -> Result<SpecConfig, SpecArgError> {
    match spec_parse_rec(args, spec_default_config()) {
        Ok(c) => if c.file_path is None && c.urls.len() == 0 {
            Err(SpecArgError::NoUrls)
        } else {
            Ok(c)
        },
        Err(e) => Err(e),
    }
}

/// A parsed command line: where to read URLs from, the URLs given directly,
/// and the run parameters.
pub struct Config {
    pub file_path: Option<String>,
    pub urls: Vec<String>,
    pub workers: usize,
    pub timeout_secs: u64,
    pub retries: u32,
}

impl Config {
    /// The ghost model of this configuration.
    pub open spec fn model(self) -> SpecConfig {
        SpecConfig {
            file_path: match self.file_path {
                Some(p) => Some(p@),
                None => None,
            },
            urls: string_views(self.urls@),
            workers: self.workers as int,
            timeout_secs: self.timeout_secs as int,
            retries: self.retries as int,
        }
    }
}

/// Why an argument list was rejected.
#[derive(Debug)]
pub enum ArgError {
    /// A flag that takes a value stood last; carries the flag.
    MissingValue(String),
    /// The value after a numeric flag was not a number in range; carries
    /// the flag.
    InvalidNumber(String),
    /// An argument starting with `--` that is not a known flag.
    UnknownFlag(String),
    /// Neither a URL file nor any URL argument was given.
    NoUrls,
}

impl ArgError {
    /// The ghost model of this error.
    pub open spec fn model(self) -> SpecArgError {
        match self {
            ArgError::MissingValue(f) => SpecArgError::MissingValue { flag: f@ },
            ArgError::InvalidNumber(f) => SpecArgError::InvalidNumber { flag: f@ },
            ArgError::UnknownFlag(f) => SpecArgError::UnknownFlag { flag: f@ },
            ArgError::NoUrls => SpecArgError::NoUrls,
        }
    }

    /// A human-readable description of the error. A missing value names what
    /// was expected: a file path after `--file`, a number after the numeric
    /// flags.
    pub fn message(&self) -> (r: String)
        ensures
            (match self {
                ArgError::MissingValue(f) => r@ == (if f@ == "--file"@ {
                    "Expected file path after "@
                } else {
                    "Expected number after "@
                }) + f@,
                ArgError::InvalidNumber(f) => r@ == "Invalid number for "@ + f@,
                ArgError::UnknownFlag(f) => r@ == "Unknown flag: "@ + f@,
                ArgError::NoUrls => r@
                    == "No URLs provided. Use --file or provide URLs directly."@,
            }),
    {
        match self {
            ArgError::MissingValue(f) => {
                if str_eq(f.as_str(), "--file") {
                    String::from_str("Expected file path after ").concat(f.as_str())
                } else {
                    String::from_str("Expected number after ").concat(f.as_str())
                }
            },
            ArgError::InvalidNumber(f) => String::from_str("Invalid number for ").concat(
                f.as_str(),
            ),
            ArgError::UnknownFlag(f) => String::from_str("Unknown flag: ").concat(f.as_str()),
            ArgError::NoUrls => String::from_str(
                "No URLs provided. Use --file or provide URLs directly.",
            ),
        }
    }
}

/// Parse the command line (the program name already dropped): exactly the
/// grammar of [`spec_parse_args`], over the given argument strings.
pub fn from_arg_list(args: &Vec<String>) -> (r: Result<Config, ArgError>)
    ensures
        (match r {
            Ok(c) => spec_parse_args(string_views(args@)) == Ok::<SpecConfig, SpecArgError>(
                c.model(),
            ),
            Err(e) => spec_parse_args(string_views(args@)) == Err::<SpecConfig, SpecArgError>(
                e.model(),
            ),
        }),
{
    let ghost av = string_views(args@);
    let n = args.len();
    let mut file_path: Option<String> = None;
    let mut urls: Vec<String> = Vec::new();
    let mut workers: usize = 4;
    let mut timeout_secs: u64 = 5;
    let mut retries: u32 = 0;
    let mut i: usize = 0;
    proof {
        assert(string_views(urls@) =~= Seq::<Seq<char>>::empty());
        assert(av.skip(0) =~= av);
    }
    while i < n
        invariant
            n == av.len(),
            av == string_views(args@),
            i <= n,
            spec_parse_rec(av, spec_default_config()) == spec_parse_rec(
                av.skip(i as int),
                SpecConfig {
                    file_path: match file_path {
                        Some(p) => Some(p@),
                        None => None,
                    },
                    urls: string_views(urls@),
                    workers: workers as int,
                    timeout_secs: timeout_secs as int,
                    retries: retries as int,
                },
            ),
        decreases n - i,
    {
        proof {
            assert(av.skip(i as int)[0] == av[i as int]);
            assert(av[i as int] == args@[i as int]@);
        }
        let a = &args[i];
        if str_eq(a.as_str(), "--file") {
            if i + 1 >= n {
                return Err(ArgError::MissingValue(a.clone()));
            }
            proof {
                assert(av.skip(i as int)[1] == av[i as int + 1]);
                assert(av.skip(i as int).skip(2) =~= av.skip(i as int + 2));
            }
            file_path = Some(args[i + 1].clone());
            i = i + 2;
        } else if str_eq(a.as_str(), "--workers") {
            if i + 1 >= n {
                return Err(ArgError::MissingValue(a.clone()));
            }
            proof {
                assert(av.skip(i as int)[1] == av[i as int + 1]);
                assert(av.skip(i as int).skip(2) =~= av.skip(i as int + 2));
            }
            match parse_u64(args[i + 1].as_str()) {
                Some(v) if v <= usize::MAX as u64 => {
                    workers = v as usize;
                },
                _ => {
                    return Err(ArgError::InvalidNumber(a.clone()));
                },
            }
            i = i + 2;
        } else if str_eq(a.as_str(), "--timeout") {
            if i + 1 >= n {
                return Err(ArgError::MissingValue(a.clone()));
            }
            proof {
                assert(av.skip(i as int)[1] == av[i as int + 1]);
                assert(av.skip(i as int).skip(2) =~= av.skip(i as int + 2));
            }
            match parse_u64(args[i + 1].as_str()) {
                Some(v) => {
                    timeout_secs = v;
                },
                None => {
                    return Err(ArgError::InvalidNumber(a.clone()));
                },
            }
            i = i + 2;
        } else if str_eq(a.as_str(), "--retries") {
            if i + 1 >= n {
                return Err(ArgError::MissingValue(a.clone()));
            }
            proof {
                assert(av.skip(i as int)[1] == av[i as int + 1]);
                assert(av.skip(i as int).skip(2) =~= av.skip(i as int + 2));
            }
            match parse_u64(args[i + 1].as_str()) {
                Some(v) if v <= u32::MAX as u64 => {
                    retries = v as u32;
                },
                _ => {
                    return Err(ArgError::InvalidNumber(a.clone()));
                },
            }
            i = i + 2;
        } else {
            let len_a = a.as_str().unicode_len();
            let is_flag = len_a >= 2 && a.as_str().get_char(0) == '-' && a.as_str().get_char(1)
                == '-';
            if is_flag {
                return Err(ArgError::UnknownFlag(a.clone()));
            }
            proof {
                assert(!looks_like_flag(av[i as int]));
                assert(av.skip(i as int).skip(1) =~= av.skip(i as int + 1));
            }
            let ghost prev_urls = string_views(urls@);
            urls.push(a.clone());
            proof {
                assert(string_views(urls@) =~= prev_urls.push(av[i as int]));
            }
            i = i + 1;
        }
    }
    proof {
        assert(av.skip(n as int) =~= Seq::<Seq<char>>::empty());
    }
    let no_file = file_path.is_none();
    let no_urls = urls.len() == 0;
    if no_file && no_urls {
        return Err(ArgError::NoUrls);
    }
    Ok(Config { file_path, urls, workers, timeout_secs, retries })
}



/// What `str::trim` leaves of a string: its characters with leading and
/// trailing whitespace removed. The result depends on the characters alone.
pub uninterp spec fn trimmed_of(s: Seq<char>) -> Seq<char>;

/// Relies on str::trim: returns the string without leading and trailing
/// whitespace, a subslice of the input.
#[verifier::external_body]
fn trim_str(s: &str) -> (r: String)
    ensures
        r@ == trimmed_of(s@),
        r@.len() <= s@.len(),
{
    String::from(s.trim())
}

/// A line of the URL file that counts: something is left after trimming,
/// and it is not a comment.
pub open spec fn keeps_line(s: Seq<char>) -> bool {
    trimmed_of(s).len() > 0 && trimmed_of(s)[0] != '#'
}

/// The URLs a list of file lines contributes: each kept line, trimmed,
/// in order.
pub open spec fn spec_filter_lines(lines: Seq<Seq<char>>) -> Seq<Seq<char>>
    decreases lines.len(),
{
    if lines.len() == 0 {
        Seq::empty()
    } else {
        let rest = spec_filter_lines(lines.drop_last());
        if keeps_line(lines.last()) {
            rest.push(trimmed_of(lines.last()))
        } else {
            rest
        }
    }
}

/// Why no URL list could be assembled.
#[derive(Debug)]
pub enum LoadError {
    /// Neither the file lines nor the direct arguments yielded any URL.
    NoValidUrls,
}

impl LoadError {
    /// A human-readable description of the error.
    pub fn message(&self) -> (r: String)
        ensures
            r@ == "No valid URLs provided."@,
    {
        String::from_str("No valid URLs provided.")
    }
}

/// Assemble the URL list of a run: every kept line of the URL file,
/// trimmed, in file order, followed by the URLs given directly, in argument
/// order. Rejected exactly when that list would be empty.
pub fn collect_urls(file_lines: &Vec<String>, direct_urls: &Vec<String>) -> (r: Result<
    Vec<String>,
    LoadError,
>)
    ensures
        (match r {
            Ok(urls) => {
                &&& string_views(urls@) == spec_filter_lines(string_views(file_lines@))
                    + string_views(direct_urls@)
                &&& urls@.len() > 0
            },
            Err(e) => {
                &&& spec_filter_lines(string_views(file_lines@)).len() == 0
                &&& direct_urls@.len() == 0
                &&& e == LoadError::NoValidUrls
            },
        }),
{
    let ghost lv = string_views(file_lines@);
    let mut urls: Vec<String> = Vec::new();
    let n = file_lines.len();
    let mut i: usize = 0;
    proof {
        assert(string_views(urls@) =~= Seq::<Seq<char>>::empty());
        assert(lv.take(0) =~= Seq::<Seq<char>>::empty());
    }
    while i < n
        invariant
            n == lv.len(),
            lv == string_views(file_lines@),
            i <= n,
            string_views(urls@) == spec_filter_lines(lv.take(i as int)),
        decreases n - i,
    {
        proof {
            assert(lv[i as int] == file_lines@[i as int]@);
            assert(lv.take(i as int + 1).drop_last() =~= lv.take(i as int));
            assert(lv.take(i as int + 1).last() == lv[i as int]);
        }
        let trimmed = trim_str(file_lines[i].as_str());
        let keep = if trimmed.as_str().unicode_len() == 0 {
            false
        } else {
            trimmed.as_str().get_char(0) != '#'
        };
        if keep {
            let ghost prev = string_views(urls@);
            urls.push(trimmed);
            proof {
                assert(string_views(urls@) =~= prev.push(trimmed_of(lv[i as int])));
            }
        }
        i = i + 1;
    }
    proof {
        assert(lv.take(n as int) =~= lv);
    }
    let m = direct_urls.len();
    let mut j: usize = 0;
    let ghost after_file = string_views(urls@);
    let ghost dv = string_views(direct_urls@);
    proof {
        assert(after_file + dv.take(0) =~= after_file);
    }
    while j < m
        invariant
            m == dv.len(),
            dv == string_views(direct_urls@),
            j <= m,
            string_views(urls@) == after_file + dv.take(j as int),
        decreases m - j,
    {
        proof {
            assert(dv[j as int] == direct_urls@[j as int]@);
        }
        let ghost prev = string_views(urls@);
        urls.push(direct_urls[j].clone());
        proof {
            assert(string_views(urls@) =~= prev.push(dv[j as int]));
            assert(prev.push(dv[j as int]) =~= after_file + dv.take(j as int + 1));
        }
        j = j + 1;
    }
    proof {
        assert(dv.take(m as int) =~= dv);
    }
    if urls.len() == 0 {
        proof {
            assert(spec_filter_lines(lv).len() + dv.len() == 0);
        }
        return Err(LoadError::NoValidUrls);
    }
    Ok(urls)
}


} // verus!
