//! Splitting absolute dotted type references into package and local name.
use vstd::prelude::*;
use vstd::string::*;
use crate::error::DocError;

verus! {

/// `i` is the position of the first `.` in `s`.
pub open spec fn is_first_dot(s: Seq<char>, i: int) -> bool {
    &&& 0 <= i < s.len()
    &&& s[i] == '.'
    &&& forall|k: int| 0 <= k < i ==> s[k] != '.'
}

/// `j` is the position of the last `.` in `s`.
pub open spec fn is_last_dot(s: Seq<char>, j: int) -> bool {
    &&& 0 <= j < s.len()
    &&& s[j] == '.'
    &&& forall|k: int| j < k < s.len() ==> s[k] != '.'
}

/// `s` holds at least two dots.
pub open spec fn has_two_dots(s: Seq<char>) -> bool {
    exists|i: int, j: int| 0 <= i < j < s.len() && s[i] == '.' && s[j] == '.'
}

/// Package and local name of a qualified reference: what lies between the
/// first and the last dot, and what follows the last dot. `None` when the
/// text holds fewer than two dots.
pub open spec fn split_qualified(s: Seq<char>) -> Option<(Seq<char>, Seq<char>)> {
    if has_two_dots(s) {
        let i = choose|i: int| is_first_dot(s, i);
        let j = choose|j: int| is_last_dot(s, j);
        Some((s.subrange(i + 1, j), s.subrange(j + 1, s.len() as int)))
    } else {
        None
    }
}

/// The first and the last dot are unique, and two dots exist exactly when
/// the first comes before the last.
pub proof fn lemma_dots_unique(s: Seq<char>, i: int, j: int)
    requires
        is_first_dot(s, i),
        is_last_dot(s, j),
    ensures
        forall|i2: int| is_first_dot(s, i2) ==> i2 == i,
        forall|j2: int| is_last_dot(s, j2) ==> j2 == j,
        has_two_dots(s) <==> i < j,
{
    assert forall|i2: int| is_first_dot(s, i2) implies i2 == i by {
        if i2 < i {
            assert(s[i2] != '.');
        } else if i2 > i {
            assert(s[i] != '.');
        }
    }
    assert forall|j2: int| is_last_dot(s, j2) implies j2 == j by {
        if j2 < j {
            assert(s[j] != '.');
        } else if j2 > j {
            assert(s[j2] != '.');
        }
    }
    if has_two_dots(s) {
        let (a, b) = choose|a: int, b: int| 0 <= a < b < s.len() && s[a] == '.' && s[b] == '.';
        assert(i <= a) by {
            if a < i {
                assert(s[a] != '.');
            }
        }
        assert(b <= j) by {
            if b > j {
                assert(s[b] != '.');
            }
        }
    }
    if i < j {
        assert(0 <= i < j < s.len() && s[i] == '.' && s[j] == '.');
    }
}

/// Ghost view of a qualified type name.
pub struct QualifiedNameView {
    pub original: Seq<char>,
    pub package: Seq<char>,
    pub name: Seq<char>,
}

/// A fully qualified type name including package path and leading dot.
pub struct FullyQualifiedTypeName {
    /// The reference as written.
    pub original: String,
    /// Package path without the leading dot.
    pub package: String,
    /// Just the type name without the package path.
    pub name: String,
}

impl View for FullyQualifiedTypeName {
    type V = QualifiedNameView;

    open spec fn view(&self) -> QualifiedNameView {
        QualifiedNameView { original: self.original@, package: self.package@, name: self.name@ }
    }
}

/// The name view that parsing `s` yields, when it succeeds.
pub open spec fn qualified_view(s: Seq<char>) -> Option<QualifiedNameView> {
    match split_qualified(s) {
        Some((package, name)) => Some(QualifiedNameView { original: s, package, name }),
        None => None,
    }
}

impl FullyQualifiedTypeName {
    /// Splits `original` at its first and last dot: `.foo.bar.Baz` has
    /// package `foo.bar` and name `Baz`. Text with fewer than two dots is
    /// rejected.
    pub fn parse(original: &str) -> (r: Result<FullyQualifiedTypeName, DocError>)
        ensures
            match r {
                Ok(q) => qualified_view(original@) == Some(q@),
                Err(e) => qualified_view(original@) is None && (e matches DocError::MalformedTypeReference(
                    t,
                ) && t@ == original@),
            },
    {
        let n = original.unicode_len();
        let mut first: Option<usize> = None;
        let mut last: Option<usize> = None;
        let mut i: usize = 0;
        while i < n
            invariant
                n == original@.len(),
                i <= n,
                first is None <==> last is None,
                first is None ==> forall|k: int| 0 <= k < i ==> original@[k] != '.',
                first matches Some(f) ==> f < i && is_first_dot(original@, f as int),
                last matches Some(l) ==> l < i && original@[l as int] == '.' && forall|k: int|
                    l < k < i ==> original@[k] != '.',
            decreases n - i,
        {
            if original.get_char(i) == '.' {
                if first.is_none() {
                    first = Some(i);
                }
                last = Some(i);
            }
            i = i + 1;
        }
        match (first, last) {
            (Some(f), Some(l)) => {
                assert(is_last_dot(original@, l as int));
                proof {
                    lemma_dots_unique(original@, f as int, l as int);
                }
                if f < l {
                    let package = original.substring_char(f + 1, l);
                    let name = original.substring_char(l + 1, n);
                    assert((choose|i: int| is_first_dot(original@, i)) == f);
                    assert((choose|j: int| is_last_dot(original@, j)) == l);
                    Ok(FullyQualifiedTypeName {
                        original: String::from_str(original),
                        package: String::from_str(package),
                        name: String::from_str(name),
                    })
                } else {
                    Err(DocError::MalformedTypeReference(String::from_str(original)))
                }
            },
            _ => {
                assert(!has_two_dots(original@));
                Err(DocError::MalformedTypeReference(String::from_str(original)))
            },
        }
    }
}

} // verus!
