use vstd::prelude::*;

use crate::errors::ConfigError;

verus! {

/// What `str::to_lowercase` returns: a pure function of the characters alone.
pub uninterp spec fn lower_of(s: Seq<char>) -> Seq<char>;

/// Relies on str::to_lowercase: the result depends on the input characters alone.
#[verifier::external_body]
fn to_lowercase(s: &str) -> (r: String)
    ensures
        r@ == lower_of(s@),
{
    s.to_lowercase()
}

/// The caller-supplied parameter bag: string keys to string values, keys unique.
pub struct ParamBag {
    pairs: Vec<(String, String)>,
}

impl ParamBag {
    /// Keys are pairwise distinct.
    pub closed spec fn wf(self) -> bool {
        forall|i: int, j: int|
            0 <= i < j < self.pairs@.len() ==> self.pairs@[i].0@ != self.pairs@[j].0@
    }

    pub closed spec fn contains_key(self, k: Seq<char>) -> bool {
        exists|i: int| 0 <= i < self.pairs@.len() && self.pairs@[i].0@ == k
    }

    pub closed spec fn value_of(self, k: Seq<char>) -> Seq<char> {
        let i = choose|i: int| 0 <= i < self.pairs@.len() && self.pairs@[i].0@ == k;
        self.pairs@[i].1@
    }

    pub fn new() -> (r: ParamBag)
        ensures
            r.wf(),
            forall|k: Seq<char>| !r.contains_key(k),
    {
        ParamBag { pairs: Vec::new() }
    }

    /// Binds `key` to `value`; the key must not be bound yet (keys are unique).
    pub fn set(&mut self, key: String, value: String)
        requires
            old(self).wf(),
            !old(self).contains_key(key@),
        ensures
            final(self).wf(),
            final(self).contains_key(key@),
            final(self).value_of(key@) == value@,
            forall|k: Seq<char>|
                k != key@ ==> #[trigger] final(self).contains_key(k) == old(self).contains_key(k),
            forall|k: Seq<char>|
                k != key@ && old(self).contains_key(k) ==> #[trigger] final(self).value_of(k)
                    == old(self).value_of(k),
    {
        let ghost pre = *self;
        self.pairs.push((key, value));
        proof {
            let last = self.pairs@.len() - 1;
            assert(self.pairs@[last].0@ == key@);
            assert(forall|j: int| 0 <= j < last ==> self.pairs@[j] == pre.pairs@[j]);
            assert forall|i: int, j: int|
                0 <= i < j < self.pairs@.len() implies self.pairs@[i].0@ != self.pairs@[j].0@ by {
                if j == last {
                    if self.pairs@[i].0@ == key@ {
                        assert(pre.pairs@[i].0@ == key@);
                        assert(pre.contains_key(key@));
                    }
                }
            }
            assert forall|k: Seq<char>| k != key@ implies #[trigger] self.contains_key(k)
                == pre.contains_key(k) by {
                if pre.contains_key(k) {
                    let w = choose|w: int| 0 <= w < pre.pairs@.len() && pre.pairs@[w].0@ == k;
                    assert(self.pairs@[w].0@ == k);
                }
                if self.contains_key(k) {
                    let w = choose|w: int| 0 <= w < self.pairs@.len() && self.pairs@[w].0@ == k;
                    assert(w < last);
                    assert(pre.pairs@[w].0@ == k);
                }
            }
            assert forall|k: Seq<char>|
                k != key@ && pre.contains_key(k) implies #[trigger] self.value_of(k)
                == pre.value_of(k) by {
                let v = choose|v: int| 0 <= v < pre.pairs@.len() && pre.pairs@[v].0@ == k;
                assert(self.pairs@[v].0@ == k);
                let w = choose|w: int| 0 <= w < self.pairs@.len() && self.pairs@[w].0@ == k;
                assert(w < last);
                assert(w == v);
            }
            let w = choose|w: int| 0 <= w < self.pairs@.len() && self.pairs@[w].0@ == key@;
            assert(w == last);
        }
    }

    pub fn get(&self, key: &String) -> (r: Option<&String>)
        requires
            self.wf(),
        ensures
            match r {
                Some(v) => self.contains_key(key@) && v@ == self.value_of(key@),
                None => !self.contains_key(key@),
            },
    {
        let mut i: usize = 0;
        while i < self.pairs.len()
            invariant
                self.wf(),
                0 <= i <= self.pairs@.len(),
                forall|j: int| 0 <= j < i ==> self.pairs@[j].0@ != key@,
            decreases self.pairs@.len() - i,
        {
            if self.pairs[i].0 == *key {
                proof {
                    let found = i as int;
                    let w = choose|w: int|
                        0 <= w < self.pairs@.len() && self.pairs@[w].0@ == key@;
                    assert(w == found);
                }
                return Some(&self.pairs[i].1);
            }
            i += 1;
        }
        None
    }
}

pub const DEFAULT_TIMEOUT_SECS: u64 = 30;

pub open spec fn is_digit(c: char) -> bool {
    '0' <= c && c <= '9'
}

pub open spec fn digit_val(c: char) -> nat {
    if is_digit(c) {
        (c as int - 48) as nat
    } else {
        0
    }
}

pub open spec fn all_digits(s: Seq<char>) -> bool {
    forall|i: int| 0 <= i < s.len() ==> is_digit(#[trigger] s[i])
}

/// The base-10 value of a digit string, most significant digit first.
pub open spec fn digits_val(s: Seq<char>) -> nat
    decreases s.len(),
{
    if s.len() == 0 {
        0
    } else {
        digits_val(s.drop_last()) * 10 + digit_val(s.last())
    }
}

/// A leading '+' is accepted, as Rust's unsigned parse does.
pub open spec fn strip_plus(s: Seq<char>) -> Seq<char> {
    if s.len() > 0 && s[0] == '+' {
        s.drop_first()
    } else {
        s
    }
}

/// What parsing a string as a base-10 u64 yields: the digits' value when the
/// whole string is digits (after an optional '+') and the value fits; else nothing.
pub open spec fn spec_parse_u64(s: Seq<char>) -> Option<u64> {
    let t = strip_plus(s);
    if t.len() > 0 && all_digits(t) && digits_val(t) <= u64::MAX {
        Some(digits_val(t) as u64)
    } else {
        None
    }
}

proof fn lemma_digits_val_take_succ(s: Seq<char>, j: int)
    requires
        0 <= j < s.len(),
    ensures
        digits_val(s.take(j + 1)) == digits_val(s.take(j)) * 10 + digit_val(s[j]),
{
    assert(s.take(j + 1).drop_last() =~= s.take(j));
    assert(s.take(j + 1).last() == s[j]);
}

proof fn lemma_digits_val_take_monotone(s: Seq<char>, j: int)
    requires
        0 <= j <= s.len(),
    ensures
        digits_val(s.take(j)) <= digits_val(s),
    decreases s.len() - j,
{
    if j < s.len() {
        lemma_digits_val_take_succ(s, j);
        lemma_digits_val_take_monotone(s, j + 1);
    } else {
        assert(s.take(j) =~= s);
    }
}

/// Parses a base-10 unsigned integer, as the `timeout` parameter asks for.
pub fn parse_u64(s: &String) -> (r: Option<u64>)
    ensures
        r == spec_parse_u64(s@),
{
    let n = s.as_str().unicode_len();
    let start: usize = if n >= 1 && s.as_str().get_char(0) == '+' {
        1
    } else {
        0
    };
    let ghost t = strip_plus(s@);
    if start >= n {
        return None;
    }
    assert(t.len() == n - start);
    assert(forall|j: int| 0 <= j < t.len() ==> t[j] == s@[j + start]);
    let mut acc: u64 = 0;
    let mut i: usize = start;
    while i < n
        invariant
            start <= i <= n,
            n == s@.len(),
            start == (if s@.len() > 0 && s@[0] == '+' {
                1int
            } else {
                0int
            }),
            t == strip_plus(s@),
            t.len() == n - start,
            forall|j: int| 0 <= j < t.len() ==> t[j] == s@[j + start],
            all_digits(t.take(i - start)),
            acc as nat == digits_val(t.take(i - start)),
        decreases n - i,
    {
        let c = s.as_str().get_char(i);
        assert(c == t[i - start]);
        if c < '0' || c > '9' {
            assert(!all_digits(t));
            return None;
        }
        let d: u64 = (c as u32 - 48) as u64;
        assert(d == digit_val(t[i - start]));
        if acc > (u64::MAX - d) / 10 {
            proof {
                let a = (u64::MAX - d) as int;
                assert(a == (a / 10) * 10 + a % 10) by (nonlinear_arith);
                assert(0 <= a % 10 < 10) by (nonlinear_arith);
                assert(acc * 10 + d > u64::MAX);
                lemma_digits_val_take_succ(t, i - start);
                assert(digits_val(t.take(i - start + 1)) > u64::MAX);
                lemma_digits_val_take_monotone(t, i - start + 1);
                assert(digits_val(t) > u64::MAX);
            }
            return None;
        }
        proof {
            let a = (u64::MAX - d) as int;
            assert(a == (a / 10) * 10 + a % 10) by (nonlinear_arith);
            assert(0 <= a % 10 < 10) by (nonlinear_arith);
            assert(acc * 10 + d <= u64::MAX);
            lemma_digits_val_take_succ(t, i - start);
        }
        acc = acc * 10 + d;
        i += 1;
    }
    proof {
        assert(t.take(i - start) =~= t);
    }
    Some(acc)
}

/// The fully-defaulted settings derived from one parameter bag.
#[derive(Debug)]
pub struct ResolvedConfig {
    pub api_key: String,
    pub endpoint: String,
    pub model: String,
    pub prompt: String,
    pub stream: bool,
    pub timeout_secs: u64,
}

pub open spec fn spec_endpoint(bag: ParamBag) -> Seq<char> {
    if bag.contains_key("endpoint"@) {
        bag.value_of("endpoint"@)
    } else {
        "https://api.openai.com/v1/chat/completions"@
    }
}

pub open spec fn spec_model(bag: ParamBag) -> Seq<char> {
    if bag.contains_key("model"@) {
        bag.value_of("model"@)
    } else {
        "gpt-4o"@
    }
}

/// The system prompt always ends with the output-language directive.
pub open spec fn spec_prompt(bag: ParamBag, lang: Seq<char>) -> Seq<char> {
    if bag.contains_key("prompt"@) {
        bag.value_of("prompt"@) + "\nOutput Language:"@ + lang
    } else {
        "Output Language:"@ + lang
    }
}

/// The resolved prompt always ends with the output-language directive for
/// the requested language, whether or not a prompt parameter was supplied.
pub proof fn lemma_prompt_ends_with_language(bag: ParamBag, lang: Seq<char>)
    ensures
        ({
            let p = spec_prompt(bag, lang);
            let directive = "Output Language:"@ + lang;
            p.len() >= directive.len() && p.skip(p.len() - directive.len()) == directive
        }),
{
    reveal_strlit("Output Language:");
    reveal_strlit("\nOutput Language:");
    let p = spec_prompt(bag, lang);
    let directive = "Output Language:"@ + lang;
    if bag.contains_key("prompt"@) {
        assert(p =~= bag.value_of("prompt"@) + "\nOutput Language:"@ + lang);
        assert(p.skip(p.len() - directive.len()) =~= directive);
    } else {
        assert(p.skip(p.len() - directive.len()) =~= directive);
    }
}

/// Streaming is requested iff the supplied value, lowercased, is exactly "true".
pub open spec fn spec_stream(bag: ParamBag) -> bool {
    bag.contains_key("stream"@) && lower_of(bag.value_of("stream"@)) == "true"@
}

/// A missing or unparsable timeout silently falls back to the default.
pub open spec fn spec_timeout(bag: ParamBag) -> u64 {
    if bag.contains_key("timeout"@) {
        match spec_parse_u64(bag.value_of("timeout"@)) {
            Some(n) => n,
            None => DEFAULT_TIMEOUT_SECS,
        }
    } else {
        DEFAULT_TIMEOUT_SECS
    }
}

/// Derives the configuration for one call: the API key is required, every
/// other parameter is optional with its default.
pub fn resolve_config(bag: &ParamBag, lang: &str) -> (r: Result<ResolvedConfig, ConfigError>)
    requires
        bag.wf(),
    ensures
        r is Err <==> !bag.contains_key("apikey"@),
        r matches Err(e) ==> e == ConfigError::MissingApiKey,
        r matches Ok(c) ==> {
            &&& c.api_key@ == bag.value_of("apikey"@)
            &&& c.endpoint@ == spec_endpoint(*bag)
            &&& c.model@ == spec_model(*bag)
            &&& c.prompt@ == spec_prompt(*bag, lang@)
            &&& c.stream == spec_stream(*bag)
            &&& c.timeout_secs == spec_timeout(*bag)
        },
{
    let api_key = match bag.get(&String::from_str("apikey")) {
        Some(v) => v.clone(),
        None => {
            return Err(ConfigError::MissingApiKey);
        },
    };
    let endpoint = match bag.get(&String::from_str("endpoint")) {
        Some(v) => v.clone(),
        None => String::from_str("https://api.openai.com/v1/chat/completions"),
    };
    let model = match bag.get(&String::from_str("model")) {
        Some(v) => v.clone(),
        None => String::from_str("gpt-4o"),
    };
    let mut prompt = match bag.get(&String::from_str("prompt")) {
        Some(v) => {
            let mut p = v.clone();
            p.append("\nOutput Language:");
            p
        },
        None => String::from_str("Output Language:"),
    };
    prompt.append(lang);
    proof {
        assert(prompt@ =~= spec_prompt(*bag, lang@));
    }
    let stream = match bag.get(&String::from_str("stream")) {
        Some(v) => {
            let low = to_lowercase(v.as_str());
            low == String::from_str("true")
        },
        None => false,
    };
    let timeout_secs = match bag.get(&String::from_str("timeout")) {
        Some(v) => match parse_u64(v) {
            Some(n) => n,
            None => DEFAULT_TIMEOUT_SECS,
        },
        None => DEFAULT_TIMEOUT_SECS,
    };
    Ok(ResolvedConfig { api_key, endpoint, model, prompt, stream, timeout_secs })
}

} // verus!
