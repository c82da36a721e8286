//! What the command line asks for.

use std::path::PathBuf;
use vstd::prelude::*;
use vstd::string::StringExecFns;

use crate::error::ArgsError;
use crate::filter::Filter;
use crate::id::{InscriptionId, Txid};

verus! {

/// A path in the file system. Nothing is known of it but that it is passed
/// on as it came.
#[verifier::external_type_specification]
#[verifier::external_body]
pub struct ExPathBuf(PathBuf);

/// `PathBuf::clone` gives the same path again.
pub assume_specification[ <PathBuf as Clone>::clone ](path: &PathBuf) -> (r: PathBuf)
    ensures
        r == *path,
;

/// The hash of a block: 32 bytes, in the order in which the hash gives them.
#[derive(Debug, Clone, Copy, PartialEq, Eq)]
pub struct BlockHash(pub [u8; 32]);

/// How to log in to the node.
#[derive(Debug, Clone, PartialEq, Eq)]
pub enum Auth {
    UserPass(String, String),
    CookieFile(PathBuf),
}

/// What to scan, and with which filters.
#[derive(Debug, Clone, PartialEq, Eq)]
pub enum ScanMode {
    Block(BlockHash, Vec<Filter>),
    Transaction(Txid, Option<BlockHash>, Vec<Filter>),
}

/// The mathematical value of a [`ScanMode`].
pub enum ScanModeView {
    Block(BlockHash, Seq<Filter>),
    Transaction(Txid, Option<BlockHash>, Seq<Filter>),
}

impl View for ScanMode {
    type V = ScanModeView;

    open spec fn view(&self) -> ScanModeView {
        match *self {
            ScanMode::Block(block, filters) => ScanModeView::Block(block, filters@),
            ScanMode::Transaction(txid, block, filters) => ScanModeView::Transaction(
                txid,
                block,
                filters@,
            ),
        }
    }
}

/// The command given.
#[derive(Debug, Clone, PartialEq, Eq)]
pub enum Commands {
    Scan {
        block: Option<BlockHash>,
        tx: Option<Txid>,
        filter: Vec<Filter>,
        extract: Option<PathBuf>,
        web: bool,
        inscription_id: bool,
        raw: bool,
    },
    Explore,
    Inscription { inscription_id: InscriptionId, raw: bool },
}

/// The command line.
#[derive(Debug, Clone, PartialEq, Eq)]
pub struct Args {
    pub host: Option<String>,
    pub user: Option<String>,
    pub password: Option<String>,
    pub cookie: Option<PathBuf>,
    pub command: Commands,
}

impl Args {
    /// The host of the node: the one given, else `localhost`.
    pub fn rpc_host(&self) -> (r: String)
        ensures
            r@ == match self.host {
                Some(host) => host@,
                None => "localhost"@,
            },
    {
        match &self.host {
            Some(host) => host.clone(),
            None => String::from_str("localhost"),
        }
    }

    /// How to log in by what the command line gives: the cookie file if one
    /// is named, else user and password if both are given.
    pub open spec fn stated_auth(&self) -> Option<Auth> {
        match (self.cookie, self.user, self.password) {
            (Some(cookie), _, _) => Some(Auth::CookieFile(cookie)),
            (None, Some(user), Some(password)) => Some(Auth::UserPass(user, password)),
            _ => None,
        }
    }

    /// Tells whether the known folders have to be searched for a cookie
    /// file: the command line names none, and gives no user with a password.
    pub fn needs_cookie_search(&self) -> (r: bool)
        ensures
            r == (self.stated_auth() is None),
    {
        self.cookie.is_none() && !(self.user.is_some() && self.password.is_some())
    }

    /// How to log in to the node. A cookie file named on the command line
    /// comes first, then user and password, then the cookie file that the
    /// search of the known folders found. With none of them it fails.
    pub fn rpc_auth(&self, found_cookie: Option<PathBuf>) -> (r: Result<Auth, ArgsError>)
        ensures
            r == match (self.stated_auth(), found_cookie) {
                (Some(auth), _) => Ok::<Auth, ArgsError>(auth),
                (None, Some(cookie)) => Ok(Auth::CookieFile(cookie)),
                (None, None) => Err(ArgsError::MissingAuth),
            },
    {
        if let Some(cookie) = &self.cookie {
            return Ok(Auth::CookieFile(cookie.clone()));
        }
        match (&self.user, &self.password) {
            (Some(user), Some(password)) => Ok(Auth::UserPass(user.clone(), password.clone())),
            _ => match found_cookie {
                Some(cookie) => Ok(Auth::CookieFile(cookie)),
                None => Err(ArgsError::MissingAuth),
            },
        }
    }

    /// What a scan is to cover. A block alone means the whole block; a
    /// transaction, with or without its block, means that transaction. Any
    /// other command line names no scan.
    pub open spec fn wanted_scan(&self) -> Option<ScanModeView> {
        match self.command {
            Commands::Scan { block: Some(block), tx: None, filter, .. } => Some(
                ScanModeView::Block(block, filter@),
            ),
            Commands::Scan { block, tx: Some(txid), filter, .. } => Some(
                ScanModeView::Transaction(txid, block, filter@),
            ),
            _ => None,
        }
    }

    /// What a scan is to cover, or an error where the command line names no
    /// scan.
    pub fn scan_mode(&self) -> (r: Result<ScanMode, ArgsError>)
        ensures
            match r {
                Ok(mode) => self.wanted_scan() == Some(mode@),
                Err(e) => e == ArgsError::NoScanMode && self.wanted_scan() is None,
            },
    {
        match &self.command {
            Commands::Scan { block: Some(block), tx: None, filter, .. } => Ok(
                ScanMode::Block(*block, filter.clone()),
            ),
            Commands::Scan { block, tx: Some(txid), filter, .. } => Ok(
                ScanMode::Transaction(*txid, *block, filter.clone()),
            ),
            _ => Err(ArgsError::NoScanMode),
        }
    }

    /// The folder to extract to, if a scan was asked to extract.
    pub fn extract(&self) -> (r: Option<&PathBuf>)
        ensures
            r == match self.command {
                Commands::Scan { extract: Some(path), .. } => Some(&path),
                _ => None,
            },
    {
        match &self.command {
            Commands::Scan { extract, .. } => extract.as_ref(),
            _ => None,
        }
    }

    /// Whether a scan is to open its inscriptions on the web.
    pub fn web(&self) -> (r: Option<bool>)
        ensures
            r == match self.command {
                Commands::Scan { web, .. } => Some(web),
                _ => None,
            },
    {
        match &self.command {
            Commands::Scan { web, .. } => Some(*web),
            _ => None,
        }
    }

    /// Whether a scan is to print the id of each inscription.
    pub fn inscription_id(&self) -> (r: Option<bool>)
        ensures
            r == match self.command {
                Commands::Scan { inscription_id, .. } => Some(inscription_id),
                _ => None,
            },
    {
        match &self.command {
            Commands::Scan { inscription_id, .. } => Some(*inscription_id),
            _ => None,
        }
    }

    /// Whether JSON is printed as plain text: always where the output is no
    /// terminal, else where the command asks for it.
    pub fn raw(&self, is_tty: bool) -> (r: bool)
        ensures
            r == (!is_tty || match self.command {
                Commands::Scan { raw, .. } => raw,
                Commands::Inscription { raw, .. } => raw,
                Commands::Explore => false,
            }),
    {
        if !is_tty {
            return true;
        }
        match &self.command {
            Commands::Scan { raw, .. } => *raw,
            Commands::Inscription { raw, .. } => *raw,
            _ => false,
        }
    }
}

} // verus!
