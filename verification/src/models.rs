use vstd::prelude::*;

use crate::text::{opt_str, strs};

verus! {

/// The metadata of a paper, as read from one Markdown note.
pub struct Paper {
    pub file_path: String,
    pub title: Option<String>,
    pub year: Option<i32>,
    pub venue: Option<String>,
    pub doi: Option<String>,
    pub arxiv_id: Option<String>,
    pub citation_count: Option<i32>,
    pub open_access: Option<bool>,
    pub status: Option<String>,
    pub authors: Vec<String>,
    pub tags: Vec<String>,
    pub fields_of_study: Vec<String>,
    pub research_tasks: Vec<String>,
    pub file_modified_at: String,
}

/// The mathematical content of a [`Paper`].
pub struct PaperView {
    pub file_path: Seq<char>,
    pub title: Option<Seq<char>>,
    pub year: Option<i32>,
    pub venue: Option<Seq<char>>,
    pub doi: Option<Seq<char>>,
    pub arxiv_id: Option<Seq<char>>,
    pub citation_count: Option<i32>,
    pub open_access: Option<bool>,
    pub status: Option<Seq<char>>,
    pub authors: Seq<Seq<char>>,
    pub tags: Seq<Seq<char>>,
    pub fields_of_study: Seq<Seq<char>>,
    pub research_tasks: Seq<Seq<char>>,
    pub file_modified_at: Seq<char>,
}

impl View for Paper {
    type V = PaperView;

    open spec fn view(&self) -> PaperView {
        PaperView {
            file_path: self.file_path@,
            title: opt_str(self.title),
            year: self.year,
            venue: opt_str(self.venue),
            doi: opt_str(self.doi),
            arxiv_id: opt_str(self.arxiv_id),
            citation_count: self.citation_count,
            open_access: self.open_access,
            status: opt_str(self.status),
            authors: strs(self.authors@),
            tags: strs(self.tags@),
            fields_of_study: strs(self.fields_of_study@),
            research_tasks: strs(self.research_tasks@),
            file_modified_at: self.file_modified_at@,
        }
    }
}

/// One paper in the answer to a filter query.
pub struct PaperResult {
    pub title: Option<String>,
    pub year: Option<i32>,
    pub venue: Option<String>,
    pub doi: Option<String>,
    pub status: Option<String>,
    pub file_path: String,
    pub authors: Vec<String>,
    pub tags: Vec<String>,
    pub fields_of_study: Vec<String>,
    pub research_tasks: Vec<String>,
}

/// The mathematical content of a [`PaperResult`].
pub struct PaperResultView {
    pub title: Option<Seq<char>>,
    pub year: Option<i32>,
    pub venue: Option<Seq<char>>,
    pub doi: Option<Seq<char>>,
    pub status: Option<Seq<char>>,
    pub file_path: Seq<char>,
    pub authors: Seq<Seq<char>>,
    pub tags: Seq<Seq<char>>,
    pub fields_of_study: Seq<Seq<char>>,
    pub research_tasks: Seq<Seq<char>>,
}

impl View for PaperResult {
    type V = PaperResultView;

    open spec fn view(&self) -> PaperResultView {
        PaperResultView {
            title: opt_str(self.title),
            year: self.year,
            venue: opt_str(self.venue),
            doi: opt_str(self.doi),
            status: opt_str(self.status),
            file_path: self.file_path@,
            authors: strs(self.authors@),
            tags: strs(self.tags@),
            fields_of_study: strs(self.fields_of_study@),
            research_tasks: strs(self.research_tasks@),
        }
    }
}

} // verus!
