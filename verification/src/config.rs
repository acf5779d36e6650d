//! The records of a configuration document and their mathematical models.

use vstd::prelude::*;
use crate::identifier::ApplicationIdentifier;
use crate::options::ApplicationOptions;

verus! {

/// One matching rule: windows whose `kind` attribute equals `id`.
#[derive(Clone, Debug)]
pub struct IdWithIdentifier {
    pub kind: ApplicationIdentifier,
    pub id: String,
}

/// What an [`IdWithIdentifier`] holds.
pub struct IdWithIdentifierView {
    pub kind: ApplicationIdentifier,
    pub id: Seq<char>,
}

impl View for IdWithIdentifier {
    type V = IdWithIdentifierView;

    open spec fn view(&self) -> IdWithIdentifierView {
        IdWithIdentifierView { kind: self.kind, id: self.id@ }
    }
}

/// A matching rule for windows that float, with an optional remark.
#[derive(Clone, Debug)]
pub struct IdWithIdentifierAndComment {
    pub kind: ApplicationIdentifier,
    pub id: String,
    pub comment: Option<String>,
}

/// What an [`IdWithIdentifierAndComment`] holds.
pub struct IdWithIdentifierAndCommentView {
    pub kind: ApplicationIdentifier,
    pub id: Seq<char>,
    pub comment: Option<Seq<char>>,
}

impl View for IdWithIdentifierAndComment {
    type V = IdWithIdentifierAndCommentView;

    open spec fn view(&self) -> IdWithIdentifierAndCommentView {
        IdWithIdentifierAndCommentView {
            kind: self.kind,
            id: self.id@,
            comment: match self.comment {
                Some(text) => Some(text@),
                None => None,
            },
        }
    }
}

/// The overrides of one application: how it is recognised, which options
/// apply to it, and which of its windows float.
#[derive(Clone, Debug)]
pub struct ApplicationConfiguration {
    pub name: String,
    pub identifier: IdWithIdentifier,
    pub options: Option<Vec<ApplicationOptions>>,
    pub float_identifiers: Option<Vec<IdWithIdentifierAndComment>>,
}

/// What an [`ApplicationConfiguration`] holds.
pub struct ApplicationConfigurationView {
    pub name: Seq<char>,
    pub identifier: IdWithIdentifierView,
    pub options: Option<Seq<ApplicationOptions>>,
    pub float_identifiers: Option<Seq<IdWithIdentifierAndCommentView>>,
}

/// The models of a list of float rules, in order.
pub open spec fn float_views(floats: Seq<IdWithIdentifierAndComment>) -> Seq<
    IdWithIdentifierAndCommentView,
> {
    floats.map_values(|f: IdWithIdentifierAndComment| f@)
}

impl View for ApplicationConfiguration {
    type V = ApplicationConfigurationView;

    open spec fn view(&self) -> ApplicationConfigurationView {
        ApplicationConfigurationView {
            name: self.name@,
            identifier: self.identifier@,
            options: match self.options {
                Some(options) => Some(options@),
                None => None,
            },
            float_identifiers: match self.float_identifiers {
                Some(floats) => Some(float_views(floats@)),
                None => None,
            },
        }
    }
}

/// A configuration document: the models of its applications, in order.
pub open spec fn document_view(apps: Seq<ApplicationConfiguration>) -> Seq<
    ApplicationConfigurationView,
> {
    apps.map_values(|app: ApplicationConfiguration| app@)
}

} // verus!
