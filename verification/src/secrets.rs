//! Secret bookkeeping: the data a secret scan produces, which
//! variable names count as sensitive, and the pure text work of
//! templating and substitution.
//!
//! Reading shell files and the actual encryption are the runtime's
//! business; this module owns everything that is a function of plain
//! text.

use vstd::prelude::*;
use vstd::string::StrSliceExecFns;
use vstd::string::StringExecFns;
use crate::strutil::{
    concat_str, contains_char, contains_sub, copy_str, find_char, first_index_of, has_substring,
    is_wspace, is_wspace_char, lemma_first_index_of, match_at, occurs_at, replace_chars,
    replace_sub, split_chars, split_on, substr, trim, trim_chars,
};

verus! {

/// The secret layer's errors.
#[derive(Debug)]
pub enum SecretError {
    Io(String),
    Regex(String),
    Encryption(String),
    Decryption(String),
    Serialization(String),
    SecretNotFound(String),
    TemplateNotFound(String),
    InvalidPassphrase,
}

impl SecretError {
    /// A human-readable line for this error.
    pub fn message(&self) -> (r: String)
        ensures
            match self {
                SecretError::Io(s) => r@ == "IO error: "@ + s@,
                SecretError::Regex(s) => r@ == "Regex error: "@ + s@,
                SecretError::Encryption(s) => r@ == "Encryption error: "@ + s@,
                SecretError::Decryption(s) => r@ == "Decryption error: "@ + s@,
                SecretError::Serialization(s) => r@ == "Serialization error: "@ + s@,
                SecretError::SecretNotFound(s) => r@ == "Secret not found: "@ + s@,
                SecretError::TemplateNotFound(s) => r@ == "Template file not found: "@ + s@,
                SecretError::InvalidPassphrase => r@ == "Invalid passphrase"@,
            },
    {
        match self {
            SecretError::Io(s) => concat_str(String::from_str("IO error: "), s.as_str()),
            SecretError::Regex(s) => concat_str(String::from_str("Regex error: "), s.as_str()),
            SecretError::Encryption(s) => concat_str(
                String::from_str("Encryption error: "),
                s.as_str(),
            ),
            SecretError::Decryption(s) => concat_str(
                String::from_str("Decryption error: "),
                s.as_str(),
            ),
            SecretError::Serialization(s) => concat_str(
                String::from_str("Serialization error: "),
                s.as_str(),
            ),
            SecretError::SecretNotFound(s) => concat_str(
                String::from_str("Secret not found: "),
                s.as_str(),
            ),
            SecretError::TemplateNotFound(s) => concat_str(
                String::from_str("Template file not found: "),
                s.as_str(),
            ),
            SecretError::InvalidPassphrase => String::from_str("Invalid passphrase"),
        }
    }
}

/// One secret found in a scanned file.
pub struct Secret {
    pub name: String,
    pub value: String,
    pub file: String,
    pub line_number: usize,
}

pub struct SecretV {
    pub name: Seq<char>,
    pub value: Seq<char>,
    pub file: Seq<char>,
    pub line_number: int,
}

impl View for Secret {
    type V = SecretV;

    open spec fn view(&self) -> SecretV {
        SecretV {
            name: self.name@,
            value: self.value@,
            file: self.file@,
            line_number: self.line_number as int,
        }
    }
}

impl Secret {
    /// Record one found secret.
    pub fn new(name: String, value: String, file: String, line_number: usize) -> (s: Secret)
        ensures
            s@.name == name@,
            s@.value == value@,
            s@.file == file@,
            s@.line_number == line_number as int,
    {
        Secret { name, value, file, line_number }
    }
}

/// The encrypted store: the ciphertext and where it is kept.
pub struct SecretStore {
    pub encrypted_data: Vec<u8>,
    pub secrets_path: String,
}

impl SecretStore {
    /// An empty store that will be written to `secrets_path`.
    pub fn new(secrets_path: String) -> (s: SecretStore)
        ensures
            s.encrypted_data@.len() == 0,
            s.secrets_path@ == secrets_path@,
    {
        SecretStore { encrypted_data: Vec::new(), secrets_path }
    }
}

/// Whether a variable name looks sensitive: it holds one of the
/// well-known credential words.
pub open spec fn sensitive_name_spec(name: Seq<char>) -> bool {
    ||| has_substring(name, "API_KEY"@)
    ||| has_substring(name, "APIKEY"@)
    ||| has_substring(name, "TOKEN"@)
    ||| has_substring(name, "PASSWORD"@)
    ||| has_substring(name, "PASSWD"@)
    ||| has_substring(name, "PWD"@)
    ||| has_substring(name, "SECRET"@)
    ||| has_substring(name, "AUTH"@)
    ||| has_substring(name, "CREDENTIAL"@)
    ||| has_substring(name, "PRIVATE_KEY"@)
    ||| has_substring(name, "ACCESS_KEY"@)
    ||| has_substring(name, "SESSION"@)
}

/// Whether an (upper-case) variable name counts as sensitive.
pub fn is_sensitive_name(name: &str) -> (r: bool)
    ensures
        r == sensitive_name_spec(name@),
{
    contains_sub(name, "API_KEY") || contains_sub(name, "APIKEY") || contains_sub(name, "TOKEN")
        || contains_sub(name, "PASSWORD") || contains_sub(name, "PASSWD") || contains_sub(
        name,
        "PWD",
    ) || contains_sub(name, "SECRET") || contains_sub(name, "AUTH") || contains_sub(
        name,
        "CREDENTIAL",
    ) || contains_sub(name, "PRIVATE_KEY") || contains_sub(name, "ACCESS_KEY") || contains_sub(
        name,
        "SESSION",
    )
}

/// The placeholder a secret is replaced with in a template.
pub open spec fn placeholder_of(name: Seq<char>) -> Seq<char> {
    "${"@ + name + "}"@
}

/// The `${NAME}` placeholder of a secret.
pub fn placeholder_for(name: &str) -> (r: String)
    ensures
        r@ == placeholder_of(name@),
{
    concat_str(concat_str(String::from_str("${"), name), "}")
}

/// Lines joined back into one text with `\n` between them.
pub open spec fn join_lines(lines: Seq<Seq<char>>) -> Seq<char>
    decreases lines.len(),
{
    if lines.len() == 0 {
        Seq::empty()
    } else if lines.len() == 1 {
        lines[0]
    } else {
        join_lines(lines.drop_last()) + "\n"@ + lines.last()
    }
}

/// One secret blanked out of its line: every copy of the value on
/// that line becomes the placeholder.
pub open spec fn template_step(lines: Seq<Seq<char>>, s: SecretV) -> Seq<Seq<char>> {
    if 1 <= s.line_number <= lines.len() {
        lines.update(
            s.line_number - 1,
            replace_chars(lines[s.line_number - 1], s.value, placeholder_of(s.name)),
        )
    } else {
        lines
    }
}

/// All secrets from `i` on blanked out of their lines, in order.
pub open spec fn apply_templates(
    lines: Seq<Seq<char>>,
    secrets: Seq<SecretV>,
    i: int,
) -> Seq<Seq<char>>
    decreases secrets.len() - i,
{
    if i < 0 || i >= secrets.len() {
        lines
    } else {
        apply_templates(template_step(lines, secrets[i]), secrets, i + 1)
    }
}

/// The template of a scanned file: on each secret's line, the
/// secret's value is replaced by its `${NAME}` placeholder.
pub fn create_template_content(content: &str, secrets: &Vec<Secret>) -> (r: String)
    ensures
        r@ == join_lines(
            apply_templates(
                split_chars(content@, '\n'),
                secrets@.map_values(|s: Secret| s@),
                0,
            ),
        ),
{
    let mut lines = split_on(content, '\n');
    let ghost lines0 = lines@.map_values(|p: String| p@);
    let ghost ssecrets = secrets@.map_values(|s: Secret| s@);
    proof {
        crate::strutil::lemma_split_chars_len(content@, '\n');
    }
    let mut i: usize = 0;
    while i < secrets.len()
        invariant
            i <= secrets.len(),
            lines@.len() >= 1,
            ssecrets == secrets@.map_values(|s: Secret| s@),
            apply_templates(lines0, ssecrets, 0) == apply_templates(
                lines@.map_values(|p: String| p@),
                ssecrets,
                i as int,
            ),
        decreases secrets.len() - i,
    {
        let s = &secrets[i];
        let ghost before = lines@.map_values(|p: String| p@);
        if s.line_number > 0 && s.line_number <= lines.len() {
            let idx = s.line_number - 1;
            let ph = placeholder_for(s.name.as_str());
            let newline = replace_sub(
                lines[idx].as_str(),
                s.value.as_str(),
                ph.as_str(),
            );
            lines[idx] = newline;
            proof {
                assert(lines@.map_values(|p: String| p@) =~= template_step(
                    before,
                    ssecrets[i as int],
                ));
            }
        } else {
            proof {
                assert(lines@.map_values(|p: String| p@) =~= template_step(
                    before,
                    ssecrets[i as int],
                ));
            }
        }
        i += 1;
    }
    let ghost done = lines@.map_values(|p: String| p@);
    let mut out: String = copy_str(lines[0].as_str());
    let mut j: usize = 1;
    proof {
        assert(done.take(1) =~= seq![done[0]]);
    }
    while j < lines.len()
        invariant
            1 <= j <= lines.len(),
            done == lines@.map_values(|p: String| p@),
            done.len() == lines@.len(),
            out@ == join_lines(done.take(j as int)),
        decreases lines.len() - j,
    {
        out = concat_str(concat_str(out, "\n"), lines[j].as_str());
        proof {
            assert(done.take(j + 1).drop_last() =~= done.take(j as int));
            assert(done.take(j + 1).last() == done[j as int]);
        }
        j += 1;
    }
    proof {
        assert(done.take(done.len() as int) =~= done);
    }
    out
}

/// One pair substituted everywhere: each `${NAME}` placeholder in the
/// text becomes the secret's value.
pub open spec fn substitute_step(content: Seq<char>, name: Seq<char>, value: Seq<char>) -> Seq<
    char,
> {
    replace_chars(content, placeholder_of(name), value)
}

/// All pairs from `i` on substituted, in order.
pub open spec fn apply_substitutions(
    content: Seq<char>,
    pairs: Seq<(Seq<char>, Seq<char>)>,
    i: int,
) -> Seq<char>
    decreases pairs.len() - i,
{
    if i < 0 || i >= pairs.len() {
        content
    } else {
        apply_substitutions(
            substitute_step(content, pairs[i].0, pairs[i].1),
            pairs,
            i + 1,
        )
    }
}

/// Fill a template back in: each `${NAME}` placeholder becomes the
/// named secret's value, pairs applied in order.
pub fn substitute_secrets(template: &str, pairs: &Vec<(String, String)>) -> (r: String)
    ensures
        r@ == apply_substitutions(
            template@,
            pairs@.map_values(|p: (String, String)| (p.0@, p.1@)),
            0,
        ),
{
    let ghost spairs = pairs@.map_values(|p: (String, String)| (p.0@, p.1@));
    let mut out = copy_str(template);
    let mut i: usize = 0;
    while i < pairs.len()
        invariant
            i <= pairs.len(),
            spairs == pairs@.map_values(|p: (String, String)| (p.0@, p.1@)),
            apply_substitutions(template@, spairs, 0) == apply_substitutions(
                out@,
                spairs,
                i as int,
            ),
        decreases pairs.len() - i,
    {
        let ph = placeholder_for(pairs[i].0.as_str());
        out = replace_sub(out.as_str(), ph.as_str(), pairs[i].1.as_str());
        i += 1;
    }
    out
}

// ---- the shell-assignment grammar ---------------------------------------

/// First position at or after `i` that is not whitespace.
pub open spec fn skip_ws(s: Seq<char>, i: int) -> int
    decreases s.len() - i,
{
    if 0 <= i < s.len() && is_wspace(s[i]) {
        skip_ws(s, i + 1)
    } else {
        i
    }
}

/// Characters that may open a variable name.
pub open spec fn is_name_start(c: char) -> bool {
    ('A' <= c && c <= 'Z') || c == '_'
}

/// Characters that may continue a variable name.
pub open spec fn is_name_char(c: char) -> bool {
    is_name_start(c) || ('0' <= c && c <= '9')
}

/// First position at or after `i` that is not a name character.
pub open spec fn name_end(s: Seq<char>, i: int) -> int
    decreases s.len() - i,
{
    if 0 <= i < s.len() && is_name_char(s[i]) {
        name_end(s, i + 1)
    } else {
        i
    }
}

/// First position at or after `i` that is not a `set` flag letter.
pub open spec fn flags_end(s: Seq<char>, i: int) -> int
    decreases s.len() - i,
{
    if 0 <= i < s.len() && (s[i] == 'g' || s[i] == 'x') {
        flags_end(s, i + 1)
    } else {
        i
    }
}

proof fn lemma_skip_ws(s: Seq<char>, i: int, k: int)
    requires
        0 <= i <= k <= s.len(),
        forall|j: int| i <= j < k ==> is_wspace(s[j]),
        k == s.len() || !is_wspace(s[k]),
    ensures
        skip_ws(s, i) == k,
    decreases k - i,
{
    if i < k {
        lemma_skip_ws(s, i + 1, k);
    }
}

proof fn lemma_name_end(s: Seq<char>, i: int, k: int)
    requires
        0 <= i <= k <= s.len(),
        forall|j: int| i <= j < k ==> is_name_char(s[j]),
        k == s.len() || !is_name_char(s[k]),
    ensures
        name_end(s, i) == k,
    decreases k - i,
{
    if i < k {
        lemma_name_end(s, i + 1, k);
    }
}

proof fn lemma_flags_end(s: Seq<char>, i: int, k: int)
    requires
        0 <= i <= k <= s.len(),
        forall|j: int| i <= j < k ==> (s[j] == 'g' || s[j] == 'x'),
        k == s.len() || !(s[k] == 'g' || s[k] == 'x'),
    ensures
        flags_end(s, i) == k,
    decreases k - i,
{
    if i < k {
        lemma_flags_end(s, i + 1, k);
    }
}

fn skip_ws_exec(s: &str, i: usize) -> (r: usize)
    requires
        i <= s@.len(),
    ensures
        r == skip_ws(s@, i as int),
        i <= r <= s@.len(),
{
    let n = s.unicode_len();
    let mut j: usize = i;
    while j < n && is_wspace_char(s.get_char(j))
        invariant
            i <= j <= n,
            n == s@.len(),
            forall|q: int| i <= q < j ==> is_wspace(s@[q]),
        decreases n - j,
    {
        j += 1;
    }
    proof {
        lemma_skip_ws(s@, i as int, j as int);
    }
    j
}

fn is_name_start_char(c: char) -> (r: bool)
    ensures
        r == is_name_start(c),
{
    ('A' <= c && c <= 'Z') || c == '_'
}

fn is_name_char_exec(c: char) -> (r: bool)
    ensures
        r == is_name_char(c),
{
    is_name_start_char(c) || ('0' <= c && c <= '9')
}

fn name_end_exec(s: &str, i: usize) -> (r: usize)
    requires
        i <= s@.len(),
    ensures
        r == name_end(s@, i as int),
        i <= r <= s@.len(),
{
    let n = s.unicode_len();
    let mut j: usize = i;
    while j < n && is_name_char_exec(s.get_char(j))
        invariant
            i <= j <= n,
            n == s@.len(),
            forall|q: int| i <= q < j ==> is_name_char(s@[q]),
        decreases n - j,
    {
        j += 1;
    }
    proof {
        lemma_name_end(s@, i as int, j as int);
    }
    j
}

fn flags_end_exec(s: &str, i: usize) -> (r: usize)
    requires
        i <= s@.len(),
    ensures
        r == flags_end(s@, i as int),
        i <= r <= s@.len(),
{
    let n = s.unicode_len();
    let mut j: usize = i;
    while j < n && (s.get_char(j) == 'g' || s.get_char(j) == 'x')
        invariant
            i <= j <= n,
            n == s@.len(),
            forall|q: int| i <= q < j ==> (s@[q] == 'g' || s@[q] == 'x'),
        decreases n - j,
    {
        j += 1;
    }
    proof {
        lemma_flags_end(s@, i as int, j as int);
    }
    j
}

/// The assignment's value read at position `i`: a quoted value runs to
/// the closing quote; a bare value runs to a `#` comment or the end of
/// the line, trimmed, and may hold no quote.  An empty value is no
/// value.
pub open spec fn value_at(s: Seq<char>, i: int) -> Option<Seq<char>> {
    if i < s.len() && (s[i] == '"' || s[i] == '\'') {
        let rest = s.skip(i + 1);
        if rest.contains(s[i]) {
            let v = rest.take(first_index_of(rest, s[i]));
            if v.len() > 0 {
                Some(v)
            } else {
                None
            }
        } else {
            None
        }
    } else {
        let raw = s.skip(i);
        let cut = if raw.contains('#') {
            raw.take(first_index_of(raw, '#'))
        } else {
            raw
        };
        let v = trim_chars(cut);
        if v.len() > 0 && !v.contains('"') && !v.contains('\'') {
            Some(v)
        } else {
            None
        }
    }
}

fn value_at_exec(s: &str, i: usize) -> (r: Option<String>)
    requires
        i <= s@.len(),
    ensures
        match r {
            Some(v) => value_at(s@, i as int) == Some(v@),
            None => value_at(s@, i as int) is None,
        },
{
    let n = s.unicode_len();
    if i < n && (s.get_char(i) == '"' || s.get_char(i) == '\'') {
        let q = s.get_char(i);
        let ghost rest = s@.skip(i + 1);
        match find_char(s, q, i + 1) {
            Some(e) => {
                proof {
                    assert(forall|j: int| 0 <= j < rest.len() ==> rest[j] == s@[i + 1 + j]);
                    assert(rest[e - i - 1] == q);
                    lemma_first_index_of(rest, q, e - i - 1);
                    assert(rest.take(e - i - 1) =~= s@.subrange(i + 1, e as int));
                }
                if e == i + 1 {
                    None
                } else {
                    Some(substr(s, i + 1, e))
                }
            }
            None => {
                proof {
                    if rest.contains(q) {
                        let w = choose|w: int| 0 <= w < rest.len() && rest[w] == q;
                        assert(s@[i + 1 + w] == q);
                    }
                }
                None
            }
        }
    } else {
        let ghost raw = s@.skip(i as int);
        let cut_end: usize = match find_char(s, '#', i) {
            Some(h) => {
                proof {
                    assert(forall|j: int| 0 <= j < raw.len() ==> raw[j] == s@[i + j]);
                    assert(raw[h - i] == '#');
                    lemma_first_index_of(raw, '#', h - i);
                    assert(raw.take(h - i) =~= s@.subrange(i as int, h as int));
                }
                h
            }
            None => {
                proof {
                    if raw.contains('#') {
                        let w = choose|w: int| 0 <= w < raw.len() && raw[w] == '#';
                        assert(s@[i + w] == '#');
                    }
                    assert(raw =~= s@.subrange(i as int, n as int));
                }
                n
            }
        };
        let cut = substr(s, i, cut_end);
        let v = trim(cut.as_str());
        if v.as_str().unicode_len() > 0 && !contains_char(v.as_str(), '"') && !contains_char(
            v.as_str(),
            '\'',
        ) {
            Some(v)
        } else {
            None
        }
    }
}

/// How a bash-style line is read: optional leading whitespace, an
/// optional `export` keyword, an upper-case name, `=`, and a value.
pub open spec fn bash_assignment_spec(s: Seq<char>) -> Option<(Seq<char>, Seq<char>)> {
    let i0 = skip_ws(s, 0);
    let i1 = if occurs_at(s, "export"@, i0) && i0 + "export"@.len() < s.len() && is_wspace(
        s[i0 + "export"@.len()],
    ) {
        skip_ws(s, i0 + "export"@.len())
    } else {
        i0
    };
    if !(i1 < s.len() && is_name_start(s[i1])) {
        None
    } else {
        let i2 = name_end(s, i1);
        let name = s.subrange(i1, i2);
        let i3 = skip_ws(s, i2);
        if !(i3 < s.len() && s[i3] == '=') {
            None
        } else {
            let i4 = skip_ws(s, i3 + 1);
            match value_at(s, i4) {
                Some(v) => Some((name, v)),
                None => None,
            }
        }
    }
}

/// How a fish-style line is read: `set`, optional `-g`/`-x` flags, an
/// upper-case name, and a value, all whitespace separated.
pub open spec fn fish_assignment_spec(s: Seq<char>) -> Option<(Seq<char>, Seq<char>)> {
    let i0 = skip_ws(s, 0);
    if !(occurs_at(s, "set"@, i0) && i0 + "set"@.len() < s.len() && is_wspace(
        s[i0 + "set"@.len()],
    )) {
        None
    } else {
        let i1 = skip_ws(s, i0 + "set"@.len());
        let i1b = if i1 < s.len() && s[i1] == '-' {
            let fe = flags_end(s, i1 + 1);
            if fe > i1 + 1 && fe < s.len() && is_wspace(s[fe]) {
                skip_ws(s, fe)
            } else {
                -1
            }
        } else {
            i1
        };
        if i1b < 0 || !(i1b < s.len() && is_name_start(s[i1b])) {
            None
        } else {
            let i2 = name_end(s, i1b);
            let name = s.subrange(i1b, i2);
            if !(i2 < s.len() && is_wspace(s[i2])) {
                None
            } else {
                let i4 = skip_ws(s, i2);
                match value_at(s, i4) {
                    Some(v) => Some((name, v)),
                    None => None,
                }
            }
        }
    }
}

/// Read a bash-style `NAME=value` line.
pub fn parse_bash_assignment(s: &str) -> (r: Option<(String, String)>)
    ensures
        match r {
            Some(nv) => bash_assignment_spec(s@) == Some((nv.0@, nv.1@)),
            None => bash_assignment_spec(s@) is None,
        },
{
    let n = s.unicode_len();
    let i0 = skip_ws_exec(s, 0);
    proof {
        reveal_strlit("export");
    }
    let has_export = n > 6 && i0 < n - 6 && match_at(s, "export", i0) && is_wspace_char(
        s.get_char(i0 + 6),
    );
    let i1 = if has_export {
        skip_ws_exec(s, i0 + 6)
    } else {
        i0
    };
    if !(i1 < n && is_name_start_char(s.get_char(i1))) {
        return None;
    }
    let i2 = name_end_exec(s, i1);
    let name = substr(s, i1, i2);
    let i3 = skip_ws_exec(s, i2);
    if !(i3 < n && s.get_char(i3) == '=') {
        return None;
    }
    let i4 = skip_ws_exec(s, i3 + 1);
    match value_at_exec(s, i4) {
        Some(v) => Some((name, v)),
        None => None,
    }
}

/// Read a fish-style `set NAME value` line.
pub fn parse_fish_assignment(s: &str) -> (r: Option<(String, String)>)
    ensures
        match r {
            Some(nv) => fish_assignment_spec(s@) == Some((nv.0@, nv.1@)),
            None => fish_assignment_spec(s@) is None,
        },
{
    let n = s.unicode_len();
    let i0 = skip_ws_exec(s, 0);
    proof {
        reveal_strlit("set");
    }
    if !(n > 3 && i0 < n - 3 && match_at(s, "set", i0) && is_wspace_char(s.get_char(i0 + 3))) {
        return None;
    }
    let i1 = skip_ws_exec(s, i0 + 3);
    let start: usize;
    if i1 < n && s.get_char(i1) == '-' {
        let fe = flags_end_exec(s, i1 + 1);
        if fe > i1 + 1 && fe < n && is_wspace_char(s.get_char(fe)) {
            start = skip_ws_exec(s, fe);
        } else {
            return None;
        }
    } else {
        start = i1;
    }
    if !(start < n && is_name_start_char(s.get_char(start))) {
        return None;
    }
    let i2 = name_end_exec(s, start);
    let name = substr(s, start, i2);
    if !(i2 < n && is_wspace_char(s.get_char(i2))) {
        return None;
    }
    let i4 = skip_ws_exec(s, i2);
    match value_at_exec(s, i4) {
        Some(v) => Some((name, v)),
        None => None,
    }
}

/// The secret one line yields, if any: a parsed assignment whose name
/// is sensitive and whose value is no reference to another variable.
pub open spec fn line_secret_spec(line: Seq<char>, file: Seq<char>, ln: int) -> Option<SecretV> {
    let parsed = match bash_assignment_spec(line) {
        Some(nv) => Some(nv),
        None => fish_assignment_spec(line),
    };
    match parsed {
        Some(nv) => if sensitive_name_spec(nv.0) && nv.1.len() > 0 && nv.1[0] != '$' {
            Some(SecretV { name: nv.0, value: nv.1, file, line_number: ln })
        } else {
            None
        },
        None => None,
    }
}

/// The secrets of the lines from `i` on, with 1-based line numbers.
pub open spec fn scan_spec(lines: Seq<Seq<char>>, file: Seq<char>, i: int) -> Seq<SecretV>
    decreases lines.len() - i,
{
    if i < 0 || i >= lines.len() {
        Seq::empty()
    } else {
        match line_secret_spec(lines[i], file, i + 1) {
            Some(sv) => seq![sv] + scan_spec(lines, file, i + 1),
            None => scan_spec(lines, file, i + 1),
        }
    }
}

/// Scan a shell file's text for secrets: bash and fish assignments
/// whose names look sensitive, with the line each was found on.
pub fn scan_content_for_secrets(content: &str, file: &str) -> (r: Vec<Secret>)
    ensures
        r@.map_values(|s: Secret| s@) == scan_spec(split_chars(content@, '\n'), file@, 0),
{
    let lines = split_on(content, '\n');
    let ghost slines = lines@.map_values(|p: String| p@);
    let mut out: Vec<Secret> = Vec::new();
    let mut i: usize = 0;
    proof {
        assert(out@.map_values(|s: Secret| s@) + scan_spec(slines, file@, 0) =~= scan_spec(
            slines,
            file@,
            0,
        ));
    }
    while i < lines.len()
        invariant
            i <= lines.len(),
            slines == lines@.map_values(|p: String| p@),
            scan_spec(slines, file@, 0) == out@.map_values(|s: Secret| s@) + scan_spec(
                slines,
                file@,
                i as int,
            ),
        decreases lines.len() - i,
    {
        let line = &lines[i];
        let ghost before = out@;
        let parsed = match parse_bash_assignment(line.as_str()) {
            Some(nv) => Some(nv),
            None => parse_fish_assignment(line.as_str()),
        };
        match parsed {
            Some((name, value)) => {
                if is_sensitive_name(name.as_str()) && value.as_str().unicode_len() > 0
                    && value.as_str().get_char(0) != '$' {
                    let ghost sv = SecretV {
                        name: name@,
                        value: value@,
                        file: file@,
                        line_number: i + 1,
                    };
                    let secret = Secret::new(name, value, copy_str(file), i + 1);
                    out.push(secret);
                    proof {
                        assert(out@.map_values(|s: Secret| s@) =~= before.map_values(
                            |s: Secret| s@,
                        ).push(sv));
                        assert(before.map_values(|s: Secret| s@) + (seq![sv] + scan_spec(
                            slines,
                            file@,
                            i + 1,
                        )) =~= out@.map_values(|s: Secret| s@) + scan_spec(
                            slines,
                            file@,
                            i + 1,
                        ));
                    }
                }
            }
            None => {}
        }
        i += 1;
    }
    proof {
        assert(out@.map_values(|s: Secret| s@) + Seq::<SecretV>::empty() =~= out@.map_values(
            |s: Secret| s@,
        ));
    }
    out
}

} // verus!
