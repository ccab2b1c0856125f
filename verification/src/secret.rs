//! A value that must never be printed, logged or serialised.

use vstd::prelude::*;

use crate::strings::{self, contains, from_chars, replace_all, replace_chars, to_chars};

verus! {

broadcast use vstd::string::group_string_axioms;

/// A password or API key. It offers no `Debug`, `Display`, `Serialize` or
/// `Clone`: [`Secret::debug_text`] and [`Secret::display_text`] give the
/// placeholders that stand in for it.
pub struct Secret(String);

/// The placeholder every occurrence of a secret is replaced with.
pub open spec fn redacted() -> Seq<char> {
    seq!['[', 'r', 'e', 'd', 'a', 'c', 't', 'e', 'd', ']']
}

impl View for Secret {
    type V = Seq<char>;

    closed spec fn view(&self) -> Seq<char> {
        self.0@
    }
}

/// What [`Secret::redact`] makes of `text`.
pub open spec fn redact_spec(secret: Seq<char>, text: Seq<char>) -> Seq<char> {
    if secret.len() == 0 {
        text
    } else {
        replace_all(text, secret, redacted())
    }
}

impl Secret {
    /// Wraps a secret value.
    pub fn new(value: &str) -> (s: Secret)
        ensures
            s@ == value@,
    {
        Secret(value.to_owned())
    }

    /// The plaintext, for the one place that must send it.
    pub fn expose(&self) -> (r: &str)
        ensures
            r@ == self@,
    {
        self.0.as_str()
    }

    /// Whether the secret is empty.
    pub fn is_empty(&self) -> (b: bool)
        ensures
            b == (self@.len() == 0),
    {
        self.0.as_str().is_empty()
    }

    /// Replaces every occurrence of the secret in `text` with `[redacted]`.
    pub fn redact(&self, text: &str) -> (r: String)
        ensures
            r@ == redact_spec(self@, text@),
    {
        let secret = to_chars(self.0.as_str());
        let chars = to_chars(text);
        if secret.len() == 0 {
            return text.to_owned();
        }
        let placeholder = vec!['[', 'r', 'e', 'd', 'a', 'c', 't', 'e', 'd', ']'];
        proof {
            assert(placeholder@ =~= redacted());
        }
        let replaced = replace_chars(chars.as_slice(), secret.as_slice(), placeholder.as_slice());
        from_chars(replaced.as_slice())
    }

    /// What `{:?}` shows for a secret: `Secret([redacted])`, never the value.
    pub fn debug_text(&self) -> (r: &'static str)
        ensures
            r@ == seq!['S', 'e', 'c', 'r', 'e', 't', '('] + redacted() + seq![')'],
    {
        proof {
            reveal_strlit("Secret([redacted])");
        }
        "Secret([redacted])"
    }

    /// What `{}` shows for a secret: `[redacted]`, never the value.
    pub fn display_text(&self) -> (r: &'static str)
        ensures
            r@ == redacted(),
    {
        proof {
            reveal_strlit("[redacted]");
        }
        "[redacted]"
    }
}

/// No character of `secret` appears in the placeholder.
pub open spec fn unlike_placeholder(secret: Seq<char>) -> bool {
    forall|i: int, j: int| 0 <= i < secret.len() && 0 <= j < redacted().len() ==> secret[i] != redacted()[j]
}

/// A redacted text that starts with placeholder-free characters `w`
/// came from a text that starts with `w`.
proof fn lemma_redacted_prefix(secret: Seq<char>, t: Seq<char>, w: Seq<char>)
    requires
        secret.len() > 0,
        strings::starts_with(replace_all(t, secret, redacted()), w),
        forall|i: int, j: int| 0 <= i < w.len() && 0 <= j < redacted().len() ==> w[i] != redacted()[j],
    ensures
        strings::starts_with(t, w),
    decreases t.len(),
{
    let r = replace_all(t, secret, redacted());
    if w.len() == 0 {
        assert(t.take(0) =~= w);
    } else if t.len() < secret.len() {
        assert(r == t);
    } else if strings::starts_with(t, secret) {
        assert(r[0] == redacted()[0]);
        assert(w[0] == r.take(w.len() as int)[0]);
        assert(false);
    } else {
        let rest = t.skip(1);
        let rr = replace_all(rest, secret, redacted());
        assert(r == seq![t[0]] + rr);
        let w2 = w.skip(1);
        assert(strings::starts_with(rr, w2)) by {
            assert(rr.take(w2.len() as int) =~= r.take(w.len() as int).skip(1));
        }
        assert forall|i: int, j: int| 0 <= i < w2.len() && 0 <= j < redacted().len() implies w2[i] != redacted()[j] by {
            assert(w2[i] == w[i + 1]);
        }
        lemma_redacted_prefix(secret, rest, w2);
        assert(w[0] == r[0]) by {
            assert(w[0] == r.take(w.len() as int)[0]);
        }
        assert(t.take(w.len() as int) =~= seq![t[0]] + rest.take(w2.len() as int));
        assert(w =~= seq![w[0]] + w2);
    }
}

/// Redacting a secret that shares no character with the placeholder
/// leaves no occurrence of it behind.
pub proof fn lemma_redact_removes_secret(secret: Seq<char>, text: Seq<char>)
    requires
        secret.len() > 0,
        unlike_placeholder(secret),
    ensures
        !contains(redact_spec(secret, text), secret),
    decreases text.len(),
{
    let r = replace_all(text, secret, redacted());
    if text.len() < secret.len() {
        assert(r == text);
        assert forall|i: int| !strings::matches_at(r, secret, i) by {}
    } else if strings::starts_with(text, secret) {
        let rest = replace_all(text.skip(secret.len() as int), secret, redacted());
        lemma_redact_removes_secret(secret, text.skip(secret.len() as int));
        assert(r == redacted() + rest);
        assert forall|i: int| !strings::matches_at(r, secret, i) by {
            if strings::matches_at(r, secret, i) {
                if i < redacted().len() {
                    assert(r.subrange(i, i + secret.len())[0] == r[i]);
                    assert(r[i] == redacted()[i]);
                    assert(secret[0] == redacted()[i]);
                } else {
                    let k = i - redacted().len();
                    assert(rest.subrange(k, k + secret.len()) =~= r.subrange(i, i + secret.len()));
                    assert(strings::matches_at(rest, secret, k));
                }
            }
        }
    } else {
        let t = text.skip(1);
        let rest = replace_all(t, secret, redacted());
        lemma_redact_removes_secret(secret, t);
        assert(r == seq![text[0]] + rest);
        assert forall|i: int| !strings::matches_at(r, secret, i) by {
            if strings::matches_at(r, secret, i) {
                if i == 0 {
                    // the rest of the occurrence is a placeholder-free prefix of `rest`
                    let w = secret.skip(1);
                    assert(strings::starts_with(rest, w)) by {
                        assert(rest.take(w.len() as int) =~= r.subrange(1, secret.len() as int));
                        assert(r.subrange(1, secret.len() as int) =~= secret.skip(1));
                    }
                    assert forall|a: int, b: int| 0 <= a < w.len() && 0 <= b < redacted().len() implies w[a] != redacted()[b] by {
                        assert(w[a] == secret[a + 1]);
                    }
                    lemma_redacted_prefix(secret, t, w);
                    assert(text.take(secret.len() as int) =~= seq![text[0]] + t.take(w.len() as int));
                    assert(secret =~= seq![secret[0]] + w);
                    assert(secret[0] == r[0]);
                    assert(strings::starts_with(text, secret));
                } else {
                    assert(rest.subrange(i - 1, i - 1 + secret.len()) =~= r.subrange(i, i + secret.len()));
                    assert(strings::matches_at(rest, secret, i - 1));
                }
            }
        }
    }
}

} // verus!
