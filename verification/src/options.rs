//! The options a store is opened with, and the orders in which entries
//! are walked.

use vstd::prelude::*;

use crate::error::StoreError;
use crate::paths::{join_path, joined_path};

verus! {

/// Where the store lies.
#[derive(Debug, Clone)]
pub enum Location {
    /// `$PASSWORD_STORE_DIR`, or where it is not set `~/.password-store`.
    Automatic,
    /// The given path.
    Manual(String),
}

impl From<String> for Location {
    fn from(path: String) -> (res: Location) {
        Location::Manual(path)
    }
}

impl vstd::std_specs::convert::FromSpecImpl<String> for Location {
    open spec fn obeys_from_spec() -> bool {
        true
    }

    open spec fn from_spec(path: String) -> Location {
        Location::Manual(path)
    }
}

/// Where a store at `location` lies, given the value of
/// `PASSWORD_STORE_DIR` (or why it could not be read) and the user's home
/// directory, where one was found.
pub open spec fn store_path_of(
    location: Location,
    store_dir: Result<Seq<char>, Seq<char>>,
    home: Option<Seq<char>>,
) -> Option<Seq<char>> {
    match location {
        Location::Manual(p) => Some(p@),
        Location::Automatic => match store_dir {
            Ok(d) => Some(d),
            Err(_) => match home {
                Some(h) => Some(joined_path(h, ".password-store"@)),
                None => None,
            },
        },
    }
}

/// Where a store at `location` lies: the given path, else the value of
/// `PASSWORD_STORE_DIR`, else `.password-store` in the home directory.
/// Without any of these the error tells that the variable is not set and
/// no home directory was found.
pub fn store_path(location: Location, store_dir: Result<String, String>, home: Option<String>) -> (res:
    Result<String, StoreError>)
    ensures
        match res {
            Ok(p) => store_path_of(
                location,
                match store_dir {
                    Ok(d) => Ok(d@),
                    Err(e) => Err(e@),
                },
                match home {
                    Some(h) => Some(h@),
                    None => None,
                },
            ) == Some(p@),
            Err(e) => store_path_of(
                location,
                match store_dir {
                    Ok(d) => Ok(d@),
                    Err(e) => Err(e@),
                },
                match home {
                    Some(h) => Some(h@),
                    None => None,
                },
            ) is None && (match e {
                StoreError::NoHome(ctx, inner) => ctx@ == "attempted search in default paths"@
                    && (match *inner {
                    StoreError::EnvVar(name, _) => name@ == "PASSWORD_STORE_DIR"@,
                    _ => false,
                }),
                _ => false,
            }),
        },
{
    match location {
        Location::Manual(p) => Ok(p),
        Location::Automatic => match store_dir {
            Ok(d) => Ok(d),
            Err(why) => match home {
                Some(h) => Ok(join_path(h.as_str(), ".password-store")),
                None => Err(
                    StoreError::NoHome(
                        String::from_str("attempted search in default paths"),
                        Box::new(StoreError::EnvVar(String::from_str("PASSWORD_STORE_DIR"), why)),
                    ),
                ),
            },
        },
    }
}

/// The key that signs commits.
#[derive(Debug, Clone)]
pub enum SigningKey {
    Automatic,
    Manual(String),
}

impl From<String> for SigningKey {
    fn from(signing_key: String) -> (res: SigningKey) {
        SigningKey::Manual(signing_key)
    }
}

impl vstd::std_specs::convert::FromSpecImpl<String> for SigningKey {
    open spec fn obeys_from_spec() -> bool {
        true
    }

    open spec fn from_spec(signing_key: String) -> SigningKey {
        SigningKey::Manual(signing_key)
    }
}

/// The file mode mask for new files.
#[derive(Debug, Clone, Copy, PartialEq, Eq, Structural)]
pub enum Umask {
    Automatic,
    Manual(u32),
}

impl From<u32> for Umask {
    fn from(mask: u32) -> (res: Umask) {
        Umask::Manual(mask)
    }
}

impl vstd::std_specs::convert::FromSpecImpl<u32> for Umask {
    open spec fn obeys_from_spec() -> bool {
        true
    }

    open spec fn from_spec(mask: u32) -> Umask {
        Umask::Manual(mask)
    }
}

/// Whether the removal of a directory takes its contents along: an
/// empty directory alone (`Shallow`), or with everything below it.
#[derive(Debug, Clone, Copy, PartialEq, Eq, Structural)]
pub enum Traversal {
    Shallow,
    Recursive,
}

/// The order in which the entries below an entry are walked.
#[derive(Debug, Clone, Copy, PartialEq, Eq, Structural)]
pub enum TraversalOrder {
    LevelOrder,
    PostOrder,
    PreOrder,
}

} // verus!
