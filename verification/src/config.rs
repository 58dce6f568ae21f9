use vstd::prelude::*;
use vstd::string::StrSliceExecFns;
use vstd::string::StringExecFns;

use crate::host::chars_of;

verus! {

/// The lower-case form of an ASCII letter; any other character stays
/// itself.
pub open spec fn lower_char_spec(c: char) -> char {
    match c {
        'A' => 'a',
        'B' => 'b',
        'C' => 'c',
        'D' => 'd',
        'E' => 'e',
        'F' => 'f',
        'G' => 'g',
        'H' => 'h',
        'I' => 'i',
        'J' => 'j',
        'K' => 'k',
        'L' => 'l',
        'M' => 'm',
        'N' => 'n',
        'O' => 'o',
        'P' => 'p',
        'Q' => 'q',
        'R' => 'r',
        'S' => 's',
        'T' => 't',
        'U' => 'u',
        'V' => 'v',
        'W' => 'w',
        'X' => 'x',
        'Y' => 'y',
        'Z' => 'z',
        _ => c,
    }
}

pub open spec fn lower_seq(s: Seq<char>) -> Seq<char> {
    s.map_values(|c: char| lower_char_spec(c))
}

fn lower_char(c: char) -> (r: char)
    ensures
        r == lower_char_spec(c),
{
    match c {
        'A' => 'a',
        'B' => 'b',
        'C' => 'c',
        'D' => 'd',
        'E' => 'e',
        'F' => 'f',
        'G' => 'g',
        'H' => 'h',
        'I' => 'i',
        'J' => 'j',
        'K' => 'k',
        'L' => 'l',
        'M' => 'm',
        'N' => 'n',
        'O' => 'o',
        'P' => 'p',
        'Q' => 'q',
        'R' => 'r',
        'S' => 's',
        'T' => 't',
        'U' => 'u',
        'V' => 'v',
        'W' => 'w',
        'X' => 'x',
        'Y' => 'y',
        'Z' => 'z',
        _ => c,
    }
}

/// Whether two strings are the same up to ASCII case.
pub fn eq_ignore_case(a: &str, b: &str) -> (r: bool)
    ensures
        r == (lower_seq(a@) == lower_seq(b@)),
{
    let av = chars_of(a);
    let bv = chars_of(b);
    if av.len() != bv.len() {
        proof {
            assert(lower_seq(a@).len() == a@.len());
            assert(lower_seq(b@).len() == b@.len());
        }
        return false;
    }
    let n = av.len();
    let mut i: usize = 0;
    while i < n
        invariant
            n == av@.len() == bv@.len(),
            av@ == a@,
            bv@ == b@,
            i <= n,
            forall|j: int| 0 <= j < i ==> lower_char_spec(a@[j]) == lower_char_spec(b@[j]),
        decreases n - i,
    {
        if lower_char(av[i]) != lower_char(bv[i]) {
            proof {
                assert(lower_seq(a@)[i as int] != lower_seq(b@)[i as int]);
            }
            return false;
        }
        i = i + 1;
    }
    proof {
        assert(lower_seq(a@) =~= lower_seq(b@));
    }
    true
}

/// A request payload: a file to read it from, or a literal value.
#[derive(Debug)]
pub enum PayloadConfig {
    File { file: String },
    Value { value: String },
}

/// The path a file payload resolves to against a parent directory: an
/// absolute path stays itself, anything else has the parent and a
/// separator put in front.
pub open spec fn path_join_spec(parent: Seq<char>, file: Seq<char>) -> Seq<char> {
    if file.len() > 0 && file[0] == '/' {
        file
    } else {
        parent + "/"@ + file
    }
}

/// How a payload resolves against a parent directory: file payloads
/// become absolute, literal values stay as they are.
pub open spec fn payload_resolved(p: &PayloadConfig, q: &PayloadConfig, parent: Seq<char>) -> bool {
    match p {
        PayloadConfig::File { file } => q matches PayloadConfig::File { file: f } && f@
            == path_join_spec(parent, file@),
        PayloadConfig::Value { value } => q matches PayloadConfig::Value { value: v } && v@
            == value@,
    }
}

impl PayloadConfig {
    /// Resolve a file payload against the given parent directory.
    pub fn make_absolute(self, parent: &str) -> (r: PayloadConfig)
        ensures
            payload_resolved(&self, &r, parent@),
    {
        proof {
            reveal_strlit("/");
        }
        match self {
            PayloadConfig::File { file } => {
                let absolute = if file.as_str().unicode_len() > 0 && file.as_str().get_char(0)
                    == '/' {
                    file
                } else {
                    String::from_str(parent).concat("/").concat(file.as_str())
                };
                PayloadConfig::File { file: absolute }
            },
            PayloadConfig::Value { value } => PayloadConfig::Value { value },
        }
    }
}

/// Which response headers a report captures: all of them, or those on
/// a list, matched without regard to ASCII case.
#[derive(Debug)]
pub enum CaptureHeaderConfig {
    All,
    List(Vec<String>),
}

/// Whether the capture configuration captures a header of this name.
pub open spec fn captured_spec(conf: &CaptureHeaderConfig, name: Seq<char>) -> bool {
    match conf {
        CaptureHeaderConfig::All => true,
        CaptureHeaderConfig::List(l) => exists|i: int|
            0 <= i < l@.len() && lower_seq((#[trigger] l@[i])@) == lower_seq(name),
    }
}

impl CaptureHeaderConfig {
    /// Capture nothing.
    pub fn empty() -> (r: CaptureHeaderConfig)
        ensures
            r matches CaptureHeaderConfig::List(l) && l@.len() == 0,
            forall|name: Seq<char>| !captured_spec(&r, name),
    {
        CaptureHeaderConfig::List(Vec::new())
    }

    /// Capture every header.
    pub fn all() -> (r: CaptureHeaderConfig)
        ensures
            r is All,
            forall|name: Seq<char>| captured_spec(&r, name),
    {
        CaptureHeaderConfig::All
    }

    /// Capture the named headers.
    pub fn list(headers: &Vec<String>) -> (r: CaptureHeaderConfig)
        ensures
            r matches CaptureHeaderConfig::List(l) && l@.len() == headers@.len() && forall|i: int|
                0 <= i < headers@.len() ==> (#[trigger] l@[i])@ == headers@[i]@,
    {
        CaptureHeaderConfig::List(clone_strings(headers))
    }
}

pub fn clone_strings(v: &Vec<String>) -> (r: Vec<String>)
    ensures
        r@.len() == v@.len(),
        forall|i: int| 0 <= i < v@.len() ==> (#[trigger] r@[i])@ == v@[i]@,
{
    let mut r: Vec<String> = Vec::new();
    let mut i: usize = 0;
    while i < v.len()
        invariant
            i <= v@.len(),
            r@.len() == i,
            forall|j: int| 0 <= j < i ==> (#[trigger] r@[j])@ == v@[j]@,
        decreases v@.len() - i,
    {
        r.push(v[i].clone());
        i = i + 1;
    }
    r
}

/// Header name/value pairs with equal text.
pub open spec fn headers_match(a: Seq<(String, String)>, b: Seq<(String, String)>) -> bool {
    &&& a.len() == b.len()
    &&& forall|i: int|
        0 <= i < a.len() ==> (#[trigger] a[i]).0@ == b[i].0@ && a[i].1@ == b[i].1@
}

pub fn clone_headers(v: &Vec<(String, String)>) -> (r: Vec<(String, String)>)
    ensures
        headers_match(r@, v@),
{
    let mut r: Vec<(String, String)> = Vec::new();
    let mut i: usize = 0;
    while i < v.len()
        invariant
            i <= v@.len(),
            r@.len() == i,
            forall|j: int| 0 <= j < i ==> (#[trigger] r@[j]).0@ == v@[j].0@ && r@[j].1@ == v@[j].1@,
        decreases v@.len() - i,
    {
        let (k, val) = &v[i];
        r.push((k.clone(), val.clone()));
        i = i + 1;
    }
    r
}

/// The capture settings as a test definition file writes them.
#[derive(Debug)]
pub struct CaptureHeaderFileConfig {
    pub all: Option<bool>,
    pub list: Option<Vec<String>>,
}

/// How file capture settings resolve: `all = true` captures
/// everything, else the listed names (an absent list captures
/// nothing).
pub open spec fn capture_resolved(fc: &CaptureHeaderFileConfig, c: &CaptureHeaderConfig) -> bool {
    if fc.all == Some(true) {
        c is All
    } else {
        c matches CaptureHeaderConfig::List(l) && match fc.list {
            Some(xs) => l@.len() == xs@.len() && forall|i: int|
                0 <= i < xs@.len() ==> (#[trigger] l@[i])@ == xs@[i]@,
            None => l@.len() == 0,
        }
    }
}

impl CaptureHeaderConfig {
    /// Resolve capture settings read from a test definition file.
    pub fn from_file(fc: &CaptureHeaderFileConfig) -> (r: CaptureHeaderConfig)
        ensures
            capture_resolved(fc, &r),
    {
        match &fc.all {
            Some(true) => CaptureHeaderConfig::All,
            _ => match &fc.list {
                Some(xs) => CaptureHeaderConfig::List(clone_strings(xs)),
                None => CaptureHeaderConfig::List(Vec::new()),
            },
        }
    }
}

/// One test as a test definition file writes it, before defaults are
/// filled in.
#[derive(Debug)]
pub struct FileTestConfig {
    pub name: String,
    pub url: Option<String>,
    pub method: Option<String>,
    pub headers: Option<Vec<(String, String)>>,
    pub payload: Option<PayloadConfig>,
    pub capture_headers: Option<CaptureHeaderFileConfig>,
}

/// The defaults section of a test definition file.
#[derive(Debug)]
pub struct DefaultsConfig {
    pub url: Option<String>,
    pub method: Option<String>,
    pub headers: Option<Vec<(String, String)>>,
    pub capture_headers: Option<CaptureHeaderFileConfig>,
}

/// A whole test definition file.
#[derive(Debug)]
pub struct FileConfig {
    pub defaults: Option<DefaultsConfig>,
    pub tests: Vec<FileTestConfig>,
}

/// One test, ready to run.
#[derive(Debug)]
pub struct TestConfig {
    pub name: String,
    pub url: String,
    pub method: String,
    pub headers: Vec<(String, String)>,
    pub payload: Option<PayloadConfig>,
    pub capture_headers: CaptureHeaderConfig,
}

/// The resolved set of tests.
#[derive(Debug)]
pub struct Config {
    pub tests: Vec<TestConfig>,
}

/// A test that names no URL, in a file without a default URL.
#[derive(Debug)]
pub enum ConfigError {
    MissingUrl(String),
}

/// The index of the first test without a URL, or -1 when every test
/// has one.
pub open spec fn missing_url_idx(tests: Seq<FileTestConfig>) -> int
    decreases tests.len(),
{
    if tests.len() == 0 {
        -1
    } else if tests[0].url is None {
        0
    } else {
        let r = missing_url_idx(tests.drop_first());
        if r < 0 {
            -1
        } else {
            r + 1
        }
    }
}

proof fn lemma_missing_url_idx(tests: Seq<FileTestConfig>)
    ensures
        missing_url_idx(tests) == -1 ==> forall|k: int|
            0 <= k < tests.len() ==> (#[trigger] tests[k]).url is Some,
        missing_url_idx(tests) != -1 ==> {
            &&& 0 <= missing_url_idx(tests) < tests.len()
            &&& tests[missing_url_idx(tests)].url is None
            &&& forall|k: int|
                0 <= k < missing_url_idx(tests) ==> (#[trigger] tests[k]).url is Some
        },
    decreases tests.len(),
{
    if tests.len() > 0 && tests[0].url is Some {
        lemma_missing_url_idx(tests.drop_first());
        if missing_url_idx(tests.drop_first()) < 0 {
            assert forall|k: int| 0 <= k < tests.len() implies (#[trigger] tests[k]).url
                is Some by {
                if k > 0 {
                    assert(tests[k] == tests.drop_first()[k - 1]);
                }
            }
        } else {
            assert(tests[missing_url_idx(tests)] == tests.drop_first()[missing_url_idx(tests)
                - 1]);
            assert forall|k: int| 0 <= k < missing_url_idx(tests) implies (#[trigger] tests[k]).url
                is Some by {
                if k > 0 {
                    assert(tests[k] == tests.drop_first()[k - 1]);
                }
            }
        }
    }
}

/// The text of a test's method, after defaults: its own, else the
/// default, else `GET`.
pub open spec fn resolved_method(
    own: &Option<String>,
    defaults: &Option<DefaultsConfig>,
) -> Seq<char> {
    match own {
        Some(m) => m@,
        None => match defaults {
            Some(d) => match &d.method {
                Some(m) => m@,
                None => "GET"@,
            },
            None => "GET"@,
        },
    }
}

/// The text of a test's URL, after defaults.
pub open spec fn resolved_url(own: &Option<String>, defaults: &Option<DefaultsConfig>) -> Seq<
    char,
> {
    match own {
        Some(u) => u@,
        None => match defaults {
            Some(d) => match &d.url {
                Some(u) => u@,
                None => Seq::<char>::empty(),
            },
            None => Seq::<char>::empty(),
        },
    }
}

/// Whether a test's headers, after defaults, match `h`.
pub open spec fn resolved_headers(
    own: &Option<Vec<(String, String)>>,
    defaults: &Option<DefaultsConfig>,
    h: Seq<(String, String)>,
) -> bool {
    match own {
        Some(hs) => headers_match(h, hs@),
        None => match defaults {
            Some(d) => match &d.headers {
                Some(hs) => headers_match(h, hs@),
                None => h.len() == 0,
            },
            None => h.len() == 0,
        },
    }
}

/// Whether a test's capture settings, after defaults, match `c`.
pub open spec fn resolved_capture(
    own: &Option<CaptureHeaderFileConfig>,
    defaults: &Option<DefaultsConfig>,
    c: &CaptureHeaderConfig,
) -> bool {
    match own {
        Some(fc) => capture_resolved(fc, c),
        None => match defaults {
            Some(d) => match &d.capture_headers {
                Some(fc) => capture_resolved(fc, c),
                None => c matches CaptureHeaderConfig::List(l) && l@.len() == 0,
            },
            None => c matches CaptureHeaderConfig::List(l) && l@.len() == 0,
        },
    }
}

/// What one resolved test promises about the file entry it came from.
pub open spec fn test_resolved(
    ft: &FileTestConfig,
    defaults: &Option<DefaultsConfig>,
    parent: Seq<char>,
    t: &TestConfig,
) -> bool {
    &&& t.name@ == ft.name@
    &&& t.url@ == resolved_url(&ft.url, defaults)
    &&& t.method@ == resolved_method(&ft.method, defaults)
    &&& resolved_headers(&ft.headers, defaults, t.headers@)
    &&& resolved_capture(&ft.capture_headers, defaults, &t.capture_headers)
    &&& match &ft.payload {
        Some(p) => t.payload matches Some(q) && payload_resolved(p, &q, parent),
        None => t.payload is None,
    }
}

impl Config {
    /// A configuration of one test against the given URL, named after
    /// it.
    pub fn single(
        url: String,
        method: String,
        headers: Vec<(String, String)>,
        payload: Option<PayloadConfig>,
        capture_headers: CaptureHeaderConfig,
    ) -> (r: Config)
        ensures
            r.tests@.len() == 1,
            r.tests@[0].name@ == url@,
            r.tests@[0].url@ == url@,
            r.tests@[0].method == method,
            r.tests@[0].headers == headers,
            r.tests@[0].payload == payload,
            r.tests@[0].capture_headers == capture_headers,
    {
        let name = url.clone();
        let t = TestConfig { name, url, method, headers, payload, capture_headers };
        let mut tests: Vec<TestConfig> = Vec::new();
        tests.push(t);
        Config { tests }
    }

    /// Resolve a test definition file against its defaults section:
    /// each test takes its own URL, method, headers and capture
    /// settings where it names them and the defaults where it does
    /// not; file payloads are made absolute against `parent`.  A test
    /// without a URL, in a file whose defaults name none, is refused.
    #[verifier::loop_isolation(false)]
    pub fn fill_defaults(unresolved: FileConfig, parent: &str) -> (r: Result<Config, ConfigError>)
        ensures
            ({
                let ts = unresolved.tests@;
                let defaults = &unresolved.defaults;
                let no_default_url = match defaults {
                    Some(d) => d.url is None,
                    None => true,
                };
                match r {
                    Err(ConfigError::MissingUrl(name)) => {
                        &&& no_default_url
                        &&& missing_url_idx(ts) >= 0
                        &&& name@ == ts[missing_url_idx(ts)].name@
                    },
                    Ok(c) => {
                        &&& !(no_default_url && missing_url_idx(ts) >= 0)
                        &&& c.tests@.len() == ts.len()
                        &&& forall|i: int|
                            0 <= i < ts.len() ==> test_resolved(
                                &ts[i],
                                defaults,
                                parent@,
                                #[trigger] &c.tests@[i],
                            )
                    },
                }
            }),
    {
        proof {
            lemma_missing_url_idx(unresolved.tests@);
        }
        let no_default_url = match &unresolved.defaults {
            Some(d) => d.url.is_none(),
            None => true,
        };
        if no_default_url {
            let mut i: usize = 0;
            while i < unresolved.tests.len()
                invariant
                    i <= unresolved.tests@.len(),
                    forall|k: int|
                        0 <= k < i ==> (#[trigger] unresolved.tests@[k]).url is Some,
                decreases unresolved.tests@.len() - i,
            {
                if unresolved.tests[i].url.is_none() {
                    proof {
                        lemma_missing_url_at(unresolved.tests@, i as int);
                    }
                    return Err(ConfigError::MissingUrl(unresolved.tests[i].name.clone()));
                }
                i = i + 1;
            }
        }
        let ghost ts = unresolved.tests@;
        let ghost defaults_g = unresolved.defaults;
        let FileConfig { defaults, tests } = unresolved;
        let mut resolved: Vec<TestConfig> = Vec::new();
        let mut tests = tests;
        // consume the tests front to back
        while tests.len() > 0
            invariant
                resolved@.len() + tests@.len() == ts.len(),
                tests@ == ts.subrange(resolved@.len() as int, ts.len() as int),
                defaults == defaults_g,
                forall|i: int|
                    0 <= i < resolved@.len() ==> test_resolved(
                        &ts[i],
                        &defaults_g,
                        parent@,
                        #[trigger] &resolved@[i],
                    ),
            decreases ts.len() - resolved@.len(),
        {
            let ft = tests.remove(0);
            proof {
                assert(ft == ts[resolved@.len() as int]);
                assert(tests@ =~= ts.subrange(resolved@.len() + 1 as int, ts.len() as int));
            }
            let url = match &ft.url {
                Some(u) => u.clone(),
                None => match &defaults {
                    Some(d) => match &d.url {
                        Some(u) => u.clone(),
                        None => String::new(),
                    },
                    None => String::new(),
                },
            };
            let method = match &ft.method {
                Some(m) => m.clone(),
                None => match &defaults {
                    Some(d) => match &d.method {
                        Some(m) => m.clone(),
                        None => String::from_str("GET"),
                    },
                    None => String::from_str("GET"),
                },
            };
            let headers = match &ft.headers {
                Some(hs) => clone_headers(hs),
                None => match &defaults {
                    Some(d) => match &d.headers {
                        Some(hs) => clone_headers(hs),
                        None => Vec::new(),
                    },
                    None => Vec::new(),
                },
            };
            let capture_headers = match &ft.capture_headers {
                Some(fc) => CaptureHeaderConfig::from_file(fc),
                None => match &defaults {
                    Some(d) => match &d.capture_headers {
                        Some(fc) => CaptureHeaderConfig::from_file(fc),
                        None => CaptureHeaderConfig::empty(),
                    },
                    None => CaptureHeaderConfig::empty(),
                },
            };
            let payload = match ft.payload {
                Some(p) => Some(p.make_absolute(parent)),
                None => None,
            };
            let t = TestConfig {
                name: ft.name,
                url,
                method,
                headers,
                payload,
                capture_headers,
            };
            resolved.push(t);
        }
        Ok(Config { tests: resolved })
    }
}

/// When everything before `i` names a URL and `i` does not, `i` is
/// the first test without one.
proof fn lemma_missing_url_at(tests: Seq<FileTestConfig>, i: int)
    requires
        0 <= i < tests.len(),
        tests[i].url is None,
        forall|k: int| 0 <= k < i ==> (#[trigger] tests[k]).url is Some,
    ensures
        missing_url_idx(tests) == i,
    decreases i,
{
    if i > 0 {
        assert forall|k: int| 0 <= k < i - 1 implies (#[trigger] tests.drop_first()[k]).url
            is Some by {
            assert(tests.drop_first()[k] == tests[k + 1]);
        }
        assert(tests.drop_first()[i - 1] == tests[i]);
        lemma_missing_url_at(tests.drop_first(), i - 1);
    }
}

} // verus!
