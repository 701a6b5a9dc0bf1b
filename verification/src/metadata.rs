//! What a fork workspace records about the package it was made from.
use vstd::prelude::*;

use crate::directory::{self, tell};
use crate::text::{cat2, fail, Error, Text};

verus! {

/// The contents of a workspace's `forkpkg.toml`.
#[derive(Debug, Clone)]
pub struct Metadata {
    pub format: u32,
    pub fork: ForkMetadata,
    pub package: PackageMetadata,
    pub base: BaseMetadata,
    pub build: BuildMetadata,
}

#[derive(Debug, Clone)]
pub struct ForkMetadata {
    pub label: String,
}

#[derive(Debug, Clone)]
pub struct PackageMetadata {
    pub installable: String,
    pub flake_ref: String,
    pub attribute: String,
    pub system: String,
    pub name: Option<String>,
    pub pname: Option<String>,
    pub version: Option<String>,
}

#[derive(Debug, Clone)]
pub struct BaseMetadata {
    pub nixpkgs_revision: Option<String>,
    pub nixpkgs_last_modified: Option<u64>,
    pub nixpkgs_locked_nar_hash: Option<String>,
    pub nixpkgs_resolved_url: Option<String>,
    pub nixpkgs_path: Option<String>,
    pub derivation: String,
    pub output: String,
    pub source: Option<String>,
    pub source_revision: Option<String>,
    pub source_hash: Option<String>,
    pub source_ca: Option<String>,
    pub post_patch_source: String,
    pub post_patch_source_hash: Option<String>,
    pub git_commit: String,
}

#[derive(Debug, Clone)]
pub struct BuildMetadata {
    pub strategy: String,
    pub patch_handling: String,
}

pub struct MetadataView {
    pub format: u32,
    pub fork: ForkView,
    pub package: PackageView,
    pub base: BaseView,
    pub build: BuildView,
}

pub struct ForkView {
    pub label: Text,
}

pub struct PackageView {
    pub installable: Text,
    pub flake_ref: Text,
    pub attribute: Text,
    pub system: Text,
    pub name: Option<Text>,
    pub pname: Option<Text>,
    pub version: Option<Text>,
}

pub struct BaseView {
    pub nixpkgs_revision: Option<Text>,
    pub nixpkgs_last_modified: Option<u64>,
    pub nixpkgs_locked_nar_hash: Option<Text>,
    pub nixpkgs_resolved_url: Option<Text>,
    pub nixpkgs_path: Option<Text>,
    pub derivation: Text,
    pub output: Text,
    pub source: Option<Text>,
    pub source_revision: Option<Text>,
    pub source_hash: Option<Text>,
    pub source_ca: Option<Text>,
    pub post_patch_source: Text,
    pub post_patch_source_hash: Option<Text>,
    pub git_commit: Text,
}

pub struct BuildView {
    pub strategy: Text,
    pub patch_handling: Text,
}

impl DeepView for ForkMetadata {
    type V = ForkView;

    open spec fn deep_view(&self) -> ForkView {
        ForkView { label: self.label@ }
    }
}

impl DeepView for PackageMetadata {
    type V = PackageView;

    open spec fn deep_view(&self) -> PackageView {
        PackageView {
            installable: self.installable@,
            flake_ref: self.flake_ref@,
            attribute: self.attribute@,
            system: self.system@,
            name: self.name.deep_view(),
            pname: self.pname.deep_view(),
            version: self.version.deep_view(),
        }
    }
}

impl DeepView for BaseMetadata {
    type V = BaseView;

    open spec fn deep_view(&self) -> BaseView {
        BaseView {
            nixpkgs_revision: self.nixpkgs_revision.deep_view(),
            nixpkgs_last_modified: self.nixpkgs_last_modified,
            nixpkgs_locked_nar_hash: self.nixpkgs_locked_nar_hash.deep_view(),
            nixpkgs_resolved_url: self.nixpkgs_resolved_url.deep_view(),
            nixpkgs_path: self.nixpkgs_path.deep_view(),
            derivation: self.derivation@,
            output: self.output@,
            source: self.source.deep_view(),
            source_revision: self.source_revision.deep_view(),
            source_hash: self.source_hash.deep_view(),
            source_ca: self.source_ca.deep_view(),
            post_patch_source: self.post_patch_source@,
            post_patch_source_hash: self.post_patch_source_hash.deep_view(),
            git_commit: self.git_commit@,
        }
    }
}

impl DeepView for BuildMetadata {
    type V = BuildView;

    open spec fn deep_view(&self) -> BuildView {
        BuildView { strategy: self.strategy@, patch_handling: self.patch_handling@ }
    }
}

impl DeepView for Metadata {
    type V = MetadataView;

    open spec fn deep_view(&self) -> MetadataView {
        MetadataView {
            format: self.format,
            fork: self.fork.deep_view(),
            package: self.package.deep_view(),
            base: self.base.deep_view(),
            build: self.build.deep_view(),
        }
    }
}

/// What reading a metadata file gave.
#[derive(Debug, Clone)]
pub enum MetadataFile {
    NotRead { cause: String },
    NotParsed { cause: String },
    Parsed { metadata: Metadata },
}

pub enum MetadataFileView {
    NotRead { cause: Text },
    NotParsed { cause: Text },
    Parsed { metadata: MetadataView },
}

impl DeepView for MetadataFile {
    type V = MetadataFileView;

    open spec fn deep_view(&self) -> MetadataFileView {
        match self {
            MetadataFile::NotRead { cause } => MetadataFileView::NotRead { cause: cause@ },
            MetadataFile::NotParsed { cause } => MetadataFileView::NotParsed { cause: cause@ },
            MetadataFile::Parsed { metadata } => MetadataFileView::Parsed {
                metadata: metadata.deep_view(),
            },
        }
    }
}

/// What a metadata file tells, or why it tells nothing.
pub open spec fn metadata_in(path: Text, file: MetadataFileView) -> Result<MetadataView, Text> {
    match file {
        MetadataFileView::NotRead { cause } => Err(
            directory::told("failed to read metadata "@, path, cause),
        ),
        MetadataFileView::NotParsed { cause } => Err(
            directory::told("failed to parse "@, path, cause),
        ),
        MetadataFileView::Parsed { metadata } => Ok(metadata),
    }
}

/// As `metadata_in`, with a failure told by its step alone.
pub open spec fn metadata_step_in(path: Text, file: MetadataFileView) -> Result<MetadataView, Text> {
    match file {
        MetadataFileView::NotRead { .. } => Err("failed to read metadata "@ + path),
        MetadataFileView::NotParsed { .. } => Err("failed to parse "@ + path),
        MetadataFileView::Parsed { metadata } => Ok(metadata),
    }
}

impl Metadata {
    pub fn read<'a>(path: &str, file: &'a MetadataFile) -> (r: Result<&'a Metadata, Error>)
        ensures
            metadata_in(path@, file.deep_view()) == (match r {
                Ok(metadata) => Ok(metadata.deep_view()),
                Err(error) => Err(error@),
            }),
    {
        match file {
            MetadataFile::NotRead { cause } => Err(
                tell("failed to read metadata ", path, cause.as_str()),
            ),
            MetadataFile::NotParsed { cause } => Err(tell("failed to parse ", path, cause.as_str())),
            MetadataFile::Parsed { metadata } => Ok(metadata),
        }
    }

    /// Reads metadata; a failure is told without its cause.
    pub(crate) fn read_step<'a>(path: &str, file: &'a MetadataFile) -> (r: Result<
        &'a Metadata,
        Error,
    >)
        ensures
            metadata_step_in(path@, file.deep_view()) == (match r {
                Ok(metadata) => Ok(metadata.deep_view()),
                Err(error) => Err(error@),
            }),
    {
        match file {
            MetadataFile::NotRead { .. } => Err(fail(cat2("failed to read metadata ", path))),
            MetadataFile::NotParsed { .. } => Err(fail(cat2("failed to parse ", path))),
            MetadataFile::Parsed { metadata } => Ok(metadata),
        }
    }

    /// The label that tells this fork from the package's other forks.
    pub fn fork_label(&self) -> (r: &str)
        ensures
            r@ == self.deep_view().fork.label,
    {
        self.fork.label.as_str()
    }
}

} // verus!
