//! POSIX locale resolution from the values of the locale variables.
use vstd::prelude::*;

verus! {

/// The value of one environment variable.
#[derive(Clone, Debug)]
pub enum EnvValue {
    /// The variable is not set
    Unset,
    /// The variable is set but is not valid Unicode
    NotUnicode,
    /// The variable is set to this text
    Text(String),
}

/// The locale used when no variable gives one.
pub open spec fn fallback_locale() -> Seq<char> {
    seq!['C']
}

/// The locale a category resolves to: the first variable that is set among
/// `LC_ALL`, the category's own variable and `LANG`, if its value is valid
/// Unicode; otherwise the fallback `"C"`.
pub open spec fn resolved(lc_all: EnvValue, category: EnvValue, lang: EnvValue) -> Option<Seq<char>> {
    let first = if !(lc_all is Unset) {
        lc_all
    } else if !(category is Unset) {
        category
    } else {
        lang
    };
    match first {
        EnvValue::Text(s) => Some(s@),
        _ => None,
    }
}

/// Resolves the locale of a category from `LC_ALL`, the category's own
/// variable (`LC_CTYPE`, `LC_COLLATE`, ...; `Unset` for the default locale)
/// and `LANG`.
pub fn resolve_locale(lc_all: EnvValue, category: EnvValue, lang: EnvValue) -> (r: String)
    ensures
        resolved(lc_all, category, lang) matches Some(s) ==> r@ == s,
        resolved(lc_all, category, lang) is None ==> r@ == fallback_locale(),
{
    let first = match lc_all {
        EnvValue::Unset => match category {
            EnvValue::Unset => lang,
            other => other,
        },
        other => other,
    };
    match first {
        EnvValue::Text(s) => s,
        _ => {
            let c = String::from_str("C");
            proof {
                reveal_strlit("C");
                assert(c@ =~= fallback_locale());
            }
            c
        },
    }
}

} // verus!
