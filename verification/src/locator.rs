//! Finding the consensus store that a node currently uses.
//!
//! A node keeps the data of one network under
//! `<app dir>/<network directory>/datadir`. Below it, `meta/CURRENT` names
//! the live generation: a decimal counter, optionally followed by one line
//! feed. The store of generation `n` is the directory
//! `consensus/consensus-<n>`; other generations may lie beside it and are
//! ignored.

use crate::error::ImportError;
use crate::network::directory_name;
use crate::network::prefixed_name;
use crate::network::NetworkIdentity;
use crate::text::decimal;
use crate::text::format_decimal;
use crate::text::parse_decimal;
use crate::text::parsed_decimal;
use vstd::prelude::*;
use vstd::string::StrSliceExecFns;
use vstd::string::StringExecFns;

verus! {

/// Where the live consensus store of a network lies.
#[derive(Clone, Debug, PartialEq, Eq)]
pub struct ConsensusStoreLocation {
    pub base_dir: String,
    pub identity: NetworkIdentity,
    pub generation: u64,
}

/// A location as a mathematical value.
pub struct LocationModel {
    pub base_dir: Seq<char>,
    pub identity: NetworkIdentity,
    pub generation: u64,
}

impl View for ConsensusStoreLocation {
    type V = LocationModel;

    open spec fn view(&self) -> LocationModel {
        LocationModel {
            base_dir: self.base_dir@,
            identity: self.identity,
            generation: self.generation,
        }
    }
}

/// The directory that holds a network's databases.
pub open spec fn network_dir(app_dir: Seq<char>, identity: NetworkIdentity) -> Seq<char> {
    app_dir + "/"@ + directory_name(identity) + "/datadir"@
}

/// The file that names the live generation.
pub open spec fn pointer_file(app_dir: Seq<char>, identity: NetworkIdentity) -> Seq<char> {
    network_dir(app_dir, identity) + "/meta/CURRENT"@
}

/// The directory of one generation of the consensus store.
pub open spec fn generation_dir(
    app_dir: Seq<char>,
    identity: NetworkIdentity,
    generation: u64,
) -> Seq<char> {
    network_dir(app_dir, identity) + "/consensus/consensus-"@ + decimal(generation as nat)
}

/// The generation that the content of the pointer file names.
pub open spec fn marked_generation(marker: Seq<char>) -> Option<u64> {
    if marker.len() > 0 && marker.last() == '\n' {
        parsed_decimal(marker.drop_last(), u64::MAX)
    } else {
        parsed_decimal(marker, u64::MAX)
    }
}

/// Where the store lies, given what the pointer file holds (`None` if the
/// file is not there).
pub open spec fn located(
    app_dir: Seq<char>,
    identity: NetworkIdentity,
    marker: Option<Seq<char>>,
) -> Result<LocationModel, ImportError> {
    match marker {
        None => Err(ImportError::StoreNotFound),
        Some(text) => match marked_generation(text) {
            None => Err(ImportError::StoreNotFound),
            Some(generation) => Ok(LocationModel { base_dir: app_dir, identity, generation }),
        },
    }
}

/// The path of the directory that holds a network's databases.
fn network_dir_path(app_dir: &str, identity: NetworkIdentity) -> (r: String)
    ensures
        r@ == network_dir(app_dir@, identity),
{
    let mut path: String = app_dir.to_owned();
    path.append("/");
    let name: String = prefixed_name(identity);
    path.append(name.as_str());
    path.append("/datadir");
    path
}

/// The path of the file that names the live generation.
pub fn pointer_path(app_dir: &str, identity: NetworkIdentity) -> (r: String)
    ensures
        r@ == pointer_file(app_dir@, identity),
{
    let mut path: String = network_dir_path(app_dir, identity);
    path.append("/meta/CURRENT");
    path
}

/// Reads the generation out of the content of the pointer file.
pub fn parse_marker(marker: &str) -> (r: Option<u64>)
    ensures
        r == marked_generation(marker@),
{
    let n: usize = marker.unicode_len();
    if n > 0 && marker.get_char(n - 1) == '\n' {
        let digits: &str = marker.substring_char(0, n - 1);
        assert(digits@ =~= marker@.drop_last());
        parse_decimal(digits, u64::MAX)
    } else {
        parse_decimal(marker, u64::MAX)
    }
}

/// Resolves the live consensus store of a network from what the pointer
/// file holds.
pub fn locate(app_dir: &str, identity: NetworkIdentity, marker: Option<&str>) -> (r: Result<
    ConsensusStoreLocation,
    ImportError,
>)
    ensures
        match located(
            app_dir@,
            identity,
            match marker {
                Some(text) => Some(text@),
                None => None,
            },
        ) {
            Ok(location) => r is Ok && r->Ok_0@ == location,
            Err(e) => r is Err && r->Err_0 == e,
        },
{
    match marker {
        None => Err(ImportError::StoreNotFound),
        Some(text) => match parse_marker(text) {
            None => Err(ImportError::StoreNotFound),
            Some(generation) => Ok(
                ConsensusStoreLocation { base_dir: app_dir.to_owned(), identity, generation },
            ),
        },
    }
}

impl ConsensusStoreLocation {
    /// The path of the consensus store's directory.
    pub fn consensus_dir(&self) -> (r: String)
        ensures
            r@ == generation_dir(self@.base_dir, self@.identity, self@.generation),
    {
        let mut path: String = network_dir_path(self.base_dir.as_str(), self.identity);
        path.append("/consensus/consensus-");
        let number: String = format_decimal(self.generation);
        path.append(number.as_str());
        path
    }

    /// Accepts the location if its directory is there.
    pub fn confirm(self, directory_exists: bool) -> (r: Result<ConsensusStoreLocation, ImportError>)
        ensures
            directory_exists ==> r is Ok && r->Ok_0 == self,
            !directory_exists ==> r is Err && r->Err_0 == ImportError::StoreNotFound,
    {
        if directory_exists {
            Ok(self)
        } else {
            Err(ImportError::StoreNotFound)
        }
    }
}

} // verus!
