//! Custom user CSS themes: the checks a theme file must pass before its
//! contents are handed to the frontend. Reading the file happens where the
//! file system is.

use vstd::prelude::*;

use crate::text::{concat, decimal, decimal_string, str_equal};

verus! {

/// 2 MiB is generous for a CSS file.
pub const MAX_THEME_SIZE_BYTES: u64 = 2097152;

/// Why a theme file was refused.
#[derive(Debug, PartialEq)]
pub enum ThemeError {
    NotFound(String),
    NotCss(String),
    TooLarge,
    Read(String),
}

impl ThemeError {
    pub open spec fn message_spec(&self) -> Seq<char> {
        match self {
            ThemeError::NotFound(p) => "theme file not found: "@ + p@,
            ThemeError::NotCss(p) => "theme file must have a .css extension: "@ + p@,
            ThemeError::TooLarge => "theme file is too large (max "@ + decimal(
                MAX_THEME_SIZE_BYTES as nat,
            ) + " bytes)"@,
            ThemeError::Read(m) => "failed to read theme file: "@ + m@,
        }
    }

    /// The human-readable description of the error.
    pub fn message(&self) -> (r: String)
        ensures
            r@ == self.message_spec(),
    {
        match self {
            ThemeError::NotFound(p) => concat("theme file not found: ", p.as_str()),
            ThemeError::NotCss(p) => concat("theme file must have a .css extension: ", p.as_str()),
            ThemeError::TooLarge => {
                let n = decimal_string(MAX_THEME_SIZE_BYTES as u128);
                let mut s = concat("theme file is too large (max ", n.as_str());
                s.append(" bytes)");
                s
            },
            ThemeError::Read(m) => concat("failed to read theme file: ", m.as_str()),
        }
    }
}

/// Which check a theme file fails first, if any.
pub enum ThemeVerdict {
    NotCss,
    NotFound,
    TooLarge,
    Accepted,
}

/// The checks a theme file must pass before it is read: the extension must
/// be `css`, the file must exist (`size` is `None` when its metadata could
/// not be read), and it must be at most `MAX_THEME_SIZE_BYTES` long, checked
/// in that order.
pub open spec fn theme_verdict(extension: Option<Seq<char>>, size: Option<u64>) -> ThemeVerdict {
    if extension != Some("css"@) {
        ThemeVerdict::NotCss
    } else {
        match size {
            None => ThemeVerdict::NotFound,
            Some(n) => if n > MAX_THEME_SIZE_BYTES {
                ThemeVerdict::TooLarge
            } else {
                ThemeVerdict::Accepted
            },
        }
    }
}

/// Checks a theme file before it is read (see [`theme_verdict`]), so a
/// malformed setting can't hand the frontend something unexpected. `path` is
/// the file's path as shown to the user.
pub fn check_theme_file(path: &str, extension: Option<&str>, size: Option<u64>) -> (r: Result<
    (),
    ThemeError,
>)
    ensures
        match theme_verdict(
            match extension {
                Some(e) => Some(e@),
                None => None,
            },
            size,
        ) {
            ThemeVerdict::NotCss => r matches Err(ThemeError::NotCss(p)) && p@ == path@,
            ThemeVerdict::NotFound => r matches Err(ThemeError::NotFound(p)) && p@ == path@,
            ThemeVerdict::TooLarge => r matches Err(ThemeError::TooLarge),
            ThemeVerdict::Accepted => r is Ok,
        },
{
    let is_css = match extension {
        Some(e) => str_equal(e, "css"),
        None => false,
    };
    if !is_css {
        return Err(ThemeError::NotCss(path.to_owned()));
    }
    match size {
        None => Err(ThemeError::NotFound(path.to_owned())),
        Some(n) => if n > MAX_THEME_SIZE_BYTES {
            Err(ThemeError::TooLarge)
        } else {
            Ok(())
        },
    }
}

/// The size rule for theme files: a file with extension `css` that exists
/// is accepted exactly when it is at most 2 MiB long; a file is refused as
/// too large only when it is longer than that; and only a `css` file that
/// exists is ever accepted.
pub proof fn lemma_theme_size_rule(extension: Option<Seq<char>>, size: Option<u64>)
    ensures
        MAX_THEME_SIZE_BYTES == 2 * 1024 * 1024,
        extension == Some("css"@) && size is Some ==> (theme_verdict(extension, size) is Accepted
            <==> size.unwrap() <= MAX_THEME_SIZE_BYTES),
        theme_verdict(extension, size) is TooLarge ==> extension == Some("css"@) && size is Some
            && size.unwrap() > MAX_THEME_SIZE_BYTES,
        theme_verdict(extension, size) is Accepted ==> extension == Some("css"@) && size is Some,
        extension != Some("css"@) ==> theme_verdict(extension, size) is NotCss,
        extension == Some("css"@) && size is None ==> theme_verdict(extension, size) is NotFound,
{
}

} // verus!
