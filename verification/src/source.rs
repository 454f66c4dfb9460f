//! What a manifest entry stands for: the concrete module source that the
//! downstream resolver must compile, each under its transformation identity;
//! and the errors a compilation can end with.

use vstd::prelude::*;
use crate::tree::MetadataCategory;

verus! {

/// A module source for the manifest. Each variant fixes the transformation
/// identity under which the downstream resolver processes the file: the
/// server-component transition for component slots, the structured-image
/// transform for static metadata images, plain text for alt-text files, and
/// the synthesized metadata-source script for dynamic items.
#[derive(Debug, Clone)]
pub enum ModuleSource {
    Component { path: String },
    StructuredImage { path: String },
    TextContent { path: String },
    MetadataSource { path: String, category: MetadataCategory, page: String },
}

#[verifier::ext_equal]
pub enum SourceModel {
    Component { path: Seq<char> },
    StructuredImage { path: Seq<char> },
    TextContent { path: Seq<char> },
    MetadataSource { path: Seq<char>, category: MetadataCategory, page: Seq<char> },
}

pub open spec fn source_view(s: ModuleSource) -> SourceModel {
    match s {
        ModuleSource::Component { path } => SourceModel::Component { path: path@ },
        ModuleSource::StructuredImage { path } => SourceModel::StructuredImage { path: path@ },
        ModuleSource::TextContent { path } => SourceModel::TextContent { path: path@ },
        ModuleSource::MetadataSource { path, category, page } => SourceModel::MetadataSource {
            path: path@,
            category,
            page: page@,
        },
    }
}

impl View for ModuleSource {
    type V = SourceModel;

    open spec fn view(&self) -> SourceModel {
        source_view(*self)
    }
}

/// Why a compilation failed: the collaborator had no answer for a file the
/// tree refers to. Fatal; no partial output is returned.
#[derive(Debug, Clone)]
pub enum CompileError {
    MissingModulePath { path: String },
    MissingRouteName { path: String },
    MissingContentType { path: String },
}

#[verifier::ext_equal]
pub enum ErrorModel {
    MissingModulePath { path: Seq<char> },
    MissingRouteName { path: Seq<char> },
    MissingContentType { path: Seq<char> },
}

pub open spec fn error_view(e: CompileError) -> ErrorModel {
    match e {
        CompileError::MissingModulePath { path } => ErrorModel::MissingModulePath { path: path@ },
        CompileError::MissingRouteName { path } => ErrorModel::MissingRouteName { path: path@ },
        CompileError::MissingContentType { path } => ErrorModel::MissingContentType {
            path: path@,
        },
    }
}

impl View for CompileError {
    type V = ErrorModel;

    open spec fn view(&self) -> ErrorModel {
        error_view(*self)
    }
}

impl CompileError {
    /// The path the collaborator had no answer for.
    pub fn path(&self) -> (r: &String)
        ensures
            r@ == match self@ {
                ErrorModel::MissingModulePath { path } => path,
                ErrorModel::MissingRouteName { path } => path,
                ErrorModel::MissingContentType { path } => path,
            },
    {
        match self {
            CompileError::MissingModulePath { path } => path,
            CompileError::MissingRouteName { path } => path,
            CompileError::MissingContentType { path } => path,
        }
    }
}

} // verus!
