//! Cookie headers from stored cookie jars.

use vstd::prelude::*;
use vstd::string::*;
use crate::text;

verus! {

/// A text without the double quotes around it, where it has both.
pub open spec fn unwrapped(s: Seq<char>) -> Seq<char> {
    if s.len() >= 2 && s[0] == '"' && s.last() == '"' {
        s.subrange(1, s.len() - 1)
    } else {
        s
    }
}

/// A text from `i` on with each backslash taken away that stands before another character.
pub open spec fn unescaped_from(s: Seq<char>, i: int) -> Seq<char>
    decreases s.len() - i,
{
    if i < 0 || i >= s.len() {
        seq![]
    } else if s[i] == '\\' && i + 1 < s.len() {
        seq![s[i + 1]] + unescaped_from(s, i + 2)
    } else {
        seq![s[i]] + unescaped_from(s, i + 1)
    }
}

/// A cookie value without quotes and escapes.
pub open spec fn cookie_value(s: Seq<char>) -> Seq<char> {
    unescaped_from(unwrapped(s), 0)
}

/// Removes LWP double quotes and simple backslash escaping.
pub fn unquote_lwp_value(value: &str) -> (r: String)
    ensures
        r@ == cookie_value(value@),
{
    let v = text::chars_of(value);
    let quoted: bool = v.len() >= 2 && v[0] == '"' && v[v.len() - 1] == '"';
    let inner = if quoted {
        text::substring(&v, 1, v.len() - 1)
    } else {
        value.to_owned()
    };
    let w = text::chars_of(inner.as_str());
    let mut out = String::new();
    let mut i: usize = 0;
    while i < w.len()
        invariant
            i <= w.len(),
            w@ == inner@,
            inner@ == unwrapped(value@),
            cookie_value(value@) == out@ + unescaped_from(inner@, i as int),
        decreases w.len() - i,
    {
        let ghost before = out@;
        if w[i] == '\\' && w.len() - i > 1 {
            out.push(w[i + 1]);
            proof {
                let rest = unescaped_from(inner@, i + 2);
                assert(before + (seq![inner@[i + 1]] + rest) =~= before.push(inner@[i + 1]) + rest);
            }
            i += 2;
        } else {
            out.push(w[i]);
            proof {
                let rest = unescaped_from(inner@, i + 1);
                assert(before + (seq![inner@[i as int]] + rest) =~= before.push(inner@[i as int])
                    + rest);
            }
            i += 1;
        }
    }
    assert(out@ + seq![] =~= out@);
    out
}

/// The cookie of a `Set-Cookie3` line for a Wikimedia domain.
pub open spec fn jar_cookie(line: Seq<char>) -> Option<Seq<char>> {
    let t = text::trimmed(line);
    let payload = t.skip("Set-Cookie3: "@.len() as int);
    if !text::begins(t, "Set-Cookie3: "@) || !text::holds(text::lowered(payload), "domain=\""@)
        || !text::holds(text::lowered(payload), "wikimedia.org"@) {
        None
    } else {
        match text::cut_first(payload, '=') {
            Some((name, rest)) => match text::cut_first(rest, ';') {
                Some((value, _)) => if text::trimmed(name).len() > 0 {
                    Some(text::trimmed(name) + "="@ + cookie_value(text::trimmed(value)))
                } else {
                    None
                },
                None => None,
            },
            None => None,
        }
    }
}

/// Extracts one `name=value` pair from a `Set-Cookie3` LWP cookie line.
pub fn lwp_cookie_pair(line: &str) -> (r: Option<String>)
    ensures
        text::opt_text(r) == jar_cookie(line@),
{
    let line = text::trim(line);
    let payload = match text::strip_prefix(line.as_str(), "Set-Cookie3: ") {
        Some(p) => p,
        None => return None,
    };
    let lower = text::ascii_lowercase(payload.as_str());
    if !text::contains(lower.as_str(), "domain=\"") {
        return None;
    }
    if !text::contains(lower.as_str(), "wikimedia.org") {
        return None;
    }
    let (name, rest) = match text::split_once(payload.as_str(), '=') {
        Some(pair) => pair,
        None => return None,
    };
    let (value, _) = match text::split_once(rest.as_str(), ';') {
        Some(pair) => pair,
        None => return None,
    };
    let name = text::trim(name.as_str());
    if name.as_str().unicode_len() == 0 {
        return None;
    }
    let value = unquote_lwp_value(text::trim(value.as_str()).as_str());
    Some(name.concat("=").concat(value.as_str()))
}

/// A header that is stored as such: one line with an equals sign.
pub open spec fn plain_header(s: Seq<char>) -> Option<Seq<char>> {
    let t = text::trimmed(s);
    if t.contains('=') && !t.contains('\n') {
        Some(t)
    } else {
        None
    }
}

/// Accepts an already compact Cookie header.
pub fn raw_cookie_header(value: &str) -> (r: Option<String>)
    ensures
        text::opt_text(r) == plain_header(value@),
{
    let trimmed = text::trim(value);
    if text::contains_char(trimmed.as_str(), '=') && !text::contains_char(trimmed.as_str(), '\n') {
        Some(trimmed)
    } else {
        None
    }
}

/// The cookies of the lines of a jar.
pub open spec fn jar_cookies(lines: Seq<Seq<char>>) -> Seq<Seq<char>>
    decreases lines.len(),
{
    if lines.len() == 0 {
        seq![]
    } else {
        match jar_cookie(lines.last()) {
            Some(c) => jar_cookies(lines.drop_last()).push(c),
            None => jar_cookies(lines.drop_last()),
        }
    }
}

/// The Cookie header that a stored jar makes.
pub open spec fn jar_header(jar: Seq<char>) -> Option<Seq<char>> {
    let cookies = jar_cookies(text::parts(jar, '\n'));
    if cookies.len() == 0 {
        plain_header(jar)
    } else {
        Some(text::joined(cookies, "; "@))
    }
}

/// Converts a Pywikibot LWP cookie jar into a compact HTTP Cookie header.
pub fn lwp_cookie_header(cookie_jar: &str) -> (r: Option<String>)
    ensures
        text::opt_text(r) == jar_header(cookie_jar@),
{
    let lines = text::split(cookie_jar, '\n');
    let ghost all = text::texts(lines@);
    let mut cookies: Vec<String> = Vec::new();
    let mut i: usize = 0;
    assert(all.take(0) =~= seq![]);
    assert(text::texts(cookies@) =~= seq![]);
    while i < lines.len()
        invariant
            i <= lines.len(),
            all == text::texts(lines@),
            text::texts(cookies@) == jar_cookies(all.take(i as int)),
        decreases lines.len() - i,
    {
        proof {
            assert(all.take(i + 1).drop_last() =~= all.take(i as int));
            assert(all.take(i + 1).last() == lines@[i as int]@);
        }
        if let Some(cookie) = lwp_cookie_pair(lines[i].as_str()) {
            proof {
                text::lemma_texts_push(cookies@, cookie);
            }
            cookies.push(cookie);
        }
        i += 1;
    }
    proof {
        assert(all.take(lines.len() as int) =~= all);
        assert(text::texts(cookies@).len() == cookies@.len());
    }
    if cookies.len() == 0 {
        raw_cookie_header(cookie_jar)
    } else {
        Some(text::join(&cookies, "; "))
    }
}

} // verus!
