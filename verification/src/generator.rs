//! The two renderings of a configuration document.

use vstd::prelude::*;
use crate::config::{document_view, ApplicationConfiguration};
use crate::script::{lines_view, render_script, script};
use crate::sort::{
    entries_named, lemma_sorted_is_ordered, lemma_sorted_is_stable, lemma_sorted_keeps_entries,
    ordered_by_name, sort_by_name, sorted_by_name,
};

verus! {

/// Renders configuration documents: as a canonical document, and as an
/// automation script.
#[derive(Clone, Copy, Debug)]
pub struct ApplicationConfigurationGenerator;

impl ApplicationConfigurationGenerator {
    /// Brings a document into canonical form: its applications by name,
    /// ascending, those that share a name in the order in which they came.
    pub fn format(apps: Vec<ApplicationConfiguration>) -> (canonical: Vec<
        ApplicationConfiguration,
    >)
        ensures
            document_view(canonical@) == sorted_by_name(document_view(apps@)),
            ordered_by_name(document_view(canonical@)),
            forall|name: Seq<char>|
                entries_named(document_view(canonical@), name) == entries_named(
                    document_view(apps@),
                    name,
                ),
            document_view(canonical@).to_multiset() == document_view(apps@).to_multiset(),
    {
        proof {
            let document = document_view(apps@);
            lemma_sorted_is_ordered(document);
            lemma_sorted_keeps_entries(document);
            assert forall|name: Seq<char>|
                entries_named(sorted_by_name(document), name) == entries_named(
                    document,
                    name,
                ) by {
                lemma_sorted_is_stable(document, name);
            }
        }
        sort_by_name(apps)
    }

    /// Writes the automation script of a document, line by line.
    pub fn generate_ahk(apps: Vec<ApplicationConfiguration>) -> (lines: Vec<String>)
        ensures
            lines_view(lines@) == script(document_view(apps@)),
    {
        let sorted = sort_by_name(apps);
        render_script(&sorted)
    }
}

} // verus!
