//! Mail-address validation.
//!
//! An address is accepted when it has the shape `local@domain` — a
//! non-empty local part over letters, digits and `. _ % + -`, one `@` —
//! and the domain is one of the two accepted mail providers.

use vstd::prelude::*;

verus! {

/// A character the local part of an address may use.
pub open spec fn is_email_local_char(c: char) -> bool {
    ||| 97 <= c as u32 <= 122
    ||| 65 <= c as u32 <= 90
    ||| 48 <= c as u32 <= 57
    ||| c == '.'
    ||| c == '_'
    ||| c == '%'
    ||| c == '+'
    ||| c == '-'
}

/// An accepted mail domain.
pub open spec fn is_accepted_domain(domain: Seq<char>) -> bool {
    domain =~= "tutanota.com"@ || domain =~= "tuta.com"@
}

/// A well-formed, accepted address: a non-empty local part of permitted
/// characters, then `@`, then an accepted domain. The permitted local
/// characters and the accepted domains never contain `@`, so the split is
/// unambiguous.
pub open spec fn is_valid_email_seq(s: Seq<char>) -> bool {
    exists|i: int|
        {
            &&& 1 <= i < s.len()
            &&& #[trigger] s[i] == '@'
            &&& forall|j: int| 0 <= j < i ==> is_email_local_char(#[trigger] s[j])
            &&& is_accepted_domain(s.subrange(i + 1, s.len() as int))
        }
}

/// Whether `c` may stand in the local part of an address.
fn email_local_char(c: char) -> (r: bool)
    ensures
        r == is_email_local_char(c),
{
    let code = c as u32;
    (97 <= code && code <= 122) || (65 <= code && code <= 90) || (48 <= code && code <= 57)
        || c == '.' || c == '_' || c == '%' || c == '+' || c == '-'
}

/// Whether the characters of `s` from position `from` on spell exactly
/// `tail`.
fn tail_matches(s: &str, from: usize, tail: &str) -> (r: bool)
    requires
        from <= s@.len(),
    ensures
        r == (s@.subrange(from as int, s@.len() as int) =~= tail@),
{
    let n = s.unicode_len();
    let m = tail.unicode_len();
    if n - from != m {
        proof {
            assert(s@.subrange(from as int, s@.len() as int).len() != tail@.len());
        }
        return false;
    }
    let mut k: usize = 0;
    while k < m
        invariant
            from <= s@.len(),
            n == s@.len(),
            m == tail@.len(),
            n - from == m,
            0 <= k <= m,
            forall|j: int| 0 <= j < k ==> s@[from + j] == tail@[j],
        decreases m - k,
    {
        if s.get_char(from + k) != tail.get_char(k) {
            proof {
                assert(s@.subrange(from as int, s@.len() as int)[k as int] != tail@[k as int]);
            }
            return false;
        }
        k = k + 1;
    }
    proof {
        assert(s@.subrange(from as int, s@.len() as int) =~= tail@);
    }
    true
}

/// Whether `email` is a well-formed address of an accepted provider.
pub fn is_valid_email(email: &str) -> (r: bool)
    ensures
        r == is_valid_email_seq(email@),
{
    let n = email.unicode_len();
    let mut k: usize = 0;
    let mut at: Option<usize> = None;
    while k < n
        invariant
            n == email@.len(),
            0 <= k <= n,
            match at {
                Some(i) => i < k && email@[i as int] == '@' && (forall|j: int|
                    0 <= j < i ==> email@[j] != '@'),
                None => forall|j: int| 0 <= j < k ==> email@[j] != '@',
            },
        decreases n - k,
    {
        if at.is_none() && email.get_char(k) == '@' {
            at = Some(k);
        }
        k = k + 1;
    }
    let at = match at {
        Some(i) => i,
        None => {
            proof {
                assert(!is_valid_email_seq(email@)) by {
                    if exists|i: int|
                        1 <= i < email@.len() && #[trigger] email@[i] == '@' && (forall|j: int|
                            0 <= j < i ==> is_email_local_char(#[trigger] email@[j]))
                            && is_accepted_domain(
                            email@.subrange(i + 1, email@.len() as int),
                        ) {
                        let i = choose|i: int|
                            1 <= i < email@.len() && #[trigger] email@[i] == '@' && (forall|
                                j: int,
                            | 0 <= j < i ==> is_email_local_char(#[trigger] email@[j]))
                                && is_accepted_domain(
                                email@.subrange(i + 1, email@.len() as int),
                            );
                        assert(email@[i] == '@');
                    }
                }
            }
            return false;
        },
    };
    if at == 0 {
        proof {
            lemma_no_witness_but_first(email@, at as int);
        }
        return false;
    }
    let mut j: usize = 0;
    while j < at
        invariant
            n == email@.len(),
            at < n,
            email@[at as int] == '@',
            forall|i: int| 0 <= i < at ==> email@[i] != '@',
            0 <= j <= at,
            forall|i: int| 0 <= i < j ==> is_email_local_char(#[trigger] email@[i]),
        decreases at - j,
    {
        if !email_local_char(email.get_char(j)) {
            proof {
                lemma_no_witness_bad_local(email@, at as int, j as int);
            }
            return false;
        }
        j = j + 1;
    }
    let domain_ok = tail_matches(email, at + 1, "tutanota.com") || tail_matches(
        email,
        at + 1,
        "tuta.com",
    );
    proof {
        if domain_ok {
            assert(is_valid_email_seq(email@)) by {
                assert(email@[at as int] == '@');
            }
        } else {
            lemma_no_witness_bad_domain(email@, at as int);
        }
    }
    domain_ok
}

/// With the first `@` at position 0, no witness splits the address after a
/// non-empty local part.
proof fn lemma_no_witness_but_first(s: Seq<char>, at: int)
    requires
        at == 0,
        0 <= at < s.len(),
        s[at] == '@',
    ensures
        !is_valid_email_seq(s),
{
    if is_valid_email_seq(s) {
        let i = choose|i: int|
            {
                &&& 1 <= i < s.len()
                &&& #[trigger] s[i] == '@'
                &&& forall|j: int| 0 <= j < i ==> is_email_local_char(#[trigger] s[j])
                &&& is_accepted_domain(s.subrange(i + 1, s.len() as int))
            };
        assert(is_email_local_char(s[0]));
        assert(s[0] == '@');
        assert(!is_email_local_char('@')) by {
            assert('@' as u32 == 64);
        }
    }
}

/// With a character at `bad` before the first `@` that the local part may
/// not use, no witness exists.
proof fn lemma_no_witness_bad_local(s: Seq<char>, at: int, bad: int)
    requires
        0 <= at < s.len(),
        s[at] == '@',
        forall|i: int| 0 <= i < at ==> s[i] != '@',
        0 <= bad < at,
        !is_email_local_char(s[bad]),
    ensures
        !is_valid_email_seq(s),
{
    if is_valid_email_seq(s) {
        let i = choose|i: int|
            {
                &&& 1 <= i < s.len()
                &&& #[trigger] s[i] == '@'
                &&& forall|j: int| 0 <= j < i ==> is_email_local_char(#[trigger] s[j])
                &&& is_accepted_domain(s.subrange(i + 1, s.len() as int))
            };
        if i < at {
            assert(s[i] != '@');
        } else if i == at {
            assert(is_email_local_char(s[bad]));
        } else {
            assert(is_email_local_char(s[at]));
            assert(!is_email_local_char('@')) by {
                assert('@' as u32 == 64);
            }
        }
    }
}

/// With the text after the first `@` spelling no accepted domain, no
/// witness exists.
proof fn lemma_no_witness_bad_domain(s: Seq<char>, at: int)
    requires
        0 <= at < s.len(),
        s[at] == '@',
        forall|i: int| 0 <= i < at ==> s[i] != '@',
        !is_accepted_domain(s.subrange(at + 1, s.len() as int)),
    ensures
        !is_valid_email_seq(s),
{
    if is_valid_email_seq(s) {
        let i = choose|i: int|
            {
                &&& 1 <= i < s.len()
                &&& #[trigger] s[i] == '@'
                &&& forall|j: int| 0 <= j < i ==> is_email_local_char(#[trigger] s[j])
                &&& is_accepted_domain(s.subrange(i + 1, s.len() as int))
            };
        if i < at {
            assert(s[i] != '@');
        } else if i > at {
            assert(is_email_local_char(s[at]));
            assert(!is_email_local_char('@')) by {
                assert('@' as u32 == 64);
            }
        }
    }
}

} // verus!
