//! Where a manifest entry says its content can be obtained from.

use vstd::prelude::*;

verus! {

/// The provenance declared by one manifest entry. `UnknownDownloader` stands
/// for every tag this library does not recognise.
#[allow(inconsistent_fields)]
#[derive(Debug)]
pub enum ArchiveState {
    NexusDownloader {
        author: Option<String>,
        description: String,
        file_id: u64,
        game_name: String,
        image_url: Option<String>,
        is_nsfw: bool,
        mod_id: u64,
        name: String,
        version: String,
    },
    HttpDownloader {
        url: String,
        /// The request headers, kept as the JSON text they were declared in.
        headers: String,
    },
    GameFileSourceDownloader {
        game: String,
        game_file: String,
        game_version: String,
        hash: String,
    },
    WabbajackCDNDownloader { url: String },
    ManualDownloader { prompt: String, url: String },
    MegaDownloader { url: String },
    GoogleDriveDownloader { id: String },
    MediaFireDownloader { url: String },
    LoversLabOAuthDownloader {
        author: Option<String>,
        description: Option<String>,
        ips4_file: Option<String>,
        ips4_mod: u64,
        ips4_url: String,
        image_url: Option<String>,
        is_attachment: bool,
        is_nsfw: bool,
        name: Option<String>,
        primary_key_string: String,
        url: String,
        version: Option<String>,
    },
    UnknownDownloader,
}

/// The characters of an optional string.
pub open spec fn opt_view(o: Option<String>) -> Option<Seq<char>> {
    match o {
        Some(s) => Some(s@),
        None => None,
    }
}

/// A copy of an optional string, equal to it.
pub fn clone_opt(o: &Option<String>) -> (r: Option<String>)
    ensures
        r == *o,
{
    match o {
        Some(s) => Some(s.clone()),
        None => None,
    }
}

impl ArchiveState {
    /// Only content that ships with the base game needs no download; an
    /// unrecognised source is assumed to need one.
    pub open spec fn spec_requires_download(&self) -> bool {
        !(self is GameFileSourceDownloader)
    }

    /// The display name a source declares, if it declares one.
    pub open spec fn spec_name(&self) -> Option<Seq<char>> {
        match self {
            ArchiveState::NexusDownloader { name, .. } => Some(name@),
            ArchiveState::LoversLabOAuthDownloader { name, .. } => opt_view(*name),
            _ => None,
        }
    }

    /// The display version a source declares, if it declares one.
    pub open spec fn spec_version(&self) -> Option<Seq<char>> {
        match self {
            ArchiveState::NexusDownloader { version, .. } => Some(version@),
            ArchiveState::LoversLabOAuthDownloader { version, .. } => opt_view(*version),
            _ => None,
        }
    }

    pub fn requires_download(&self) -> (r: bool)
        ensures
            r == self.spec_requires_download(),
    {
        match self {
            ArchiveState::GameFileSourceDownloader { .. } => false,
            _ => true,
        }
    }

    pub fn name(&self) -> (r: Option<String>)
        ensures
            opt_view(r) == self.spec_name(),
    {
        match self {
            ArchiveState::NexusDownloader { name, .. } => Some(name.clone()),
            ArchiveState::LoversLabOAuthDownloader { name, .. } => clone_opt(name),
            _ => None,
        }
    }

    pub fn version(&self) -> (r: Option<String>)
        ensures
            opt_view(r) == self.spec_version(),
    {
        match self {
            ArchiveState::NexusDownloader { version, .. } => Some(version.clone()),
            ArchiveState::LoversLabOAuthDownloader { version, .. } => clone_opt(version),
            _ => None,
        }
    }

    pub fn is_unknown(&self) -> (r: bool)
        ensures
            r == (self is UnknownDownloader),
    {
        match self {
            ArchiveState::UnknownDownloader => true,
            _ => false,
        }
    }
}

impl Clone for ArchiveState {
    fn clone(&self) -> (r: Self)
        ensures
            r == *self,
    {
        match self {
            ArchiveState::NexusDownloader {
                author,
                description,
                file_id,
                game_name,
                image_url,
                is_nsfw,
                mod_id,
                name,
                version,
            } => ArchiveState::NexusDownloader {
                author: clone_opt(author),
                description: description.clone(),
                file_id: *file_id,
                game_name: game_name.clone(),
                image_url: clone_opt(image_url),
                is_nsfw: *is_nsfw,
                mod_id: *mod_id,
                name: name.clone(),
                version: version.clone(),
            },
            ArchiveState::HttpDownloader { url, headers } => ArchiveState::HttpDownloader {
                url: url.clone(),
                headers: headers.clone(),
            },
            ArchiveState::GameFileSourceDownloader { game, game_file, game_version, hash } =>
                ArchiveState::GameFileSourceDownloader {
                game: game.clone(),
                game_file: game_file.clone(),
                game_version: game_version.clone(),
                hash: hash.clone(),
            },
            ArchiveState::WabbajackCDNDownloader { url } => ArchiveState::WabbajackCDNDownloader {
                url: url.clone(),
            },
            ArchiveState::ManualDownloader { prompt, url } => ArchiveState::ManualDownloader {
                prompt: prompt.clone(),
                url: url.clone(),
            },
            ArchiveState::MegaDownloader { url } => ArchiveState::MegaDownloader { url: url.clone() },
            ArchiveState::GoogleDriveDownloader { id } => ArchiveState::GoogleDriveDownloader {
                id: id.clone(),
            },
            ArchiveState::MediaFireDownloader { url } => ArchiveState::MediaFireDownloader {
                url: url.clone(),
            },
            ArchiveState::LoversLabOAuthDownloader {
                author,
                description,
                ips4_file,
                ips4_mod,
                ips4_url,
                image_url,
                is_attachment,
                is_nsfw,
                name,
                primary_key_string,
                url,
                version,
            } => ArchiveState::LoversLabOAuthDownloader {
                author: clone_opt(author),
                description: clone_opt(description),
                ips4_file: clone_opt(ips4_file),
                ips4_mod: *ips4_mod,
                ips4_url: ips4_url.clone(),
                image_url: clone_opt(image_url),
                is_attachment: *is_attachment,
                is_nsfw: *is_nsfw,
                name: clone_opt(name),
                primary_key_string: primary_key_string.clone(),
                url: url.clone(),
                version: clone_opt(version),
            },
            ArchiveState::UnknownDownloader => ArchiveState::UnknownDownloader,
        }
    }
}

} // verus!
