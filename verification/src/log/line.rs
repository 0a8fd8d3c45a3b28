//! What one header line says, before it becomes a record.

use vstd::prelude::*;

use crate::log::frame;
use crate::log::frame::StampView;
use crate::metadata::log::{LogField, LogLevel, LogTimestamp};

verus! {

#[derive(Debug)]
pub struct ParsedLine {
    pub timestamp: Option<LogTimestamp>,
    pub level: LogLevel,
    pub target: Option<String>,
    pub message: String,
    pub fields: Vec<LogField>,
}

pub struct ParsedView {
    pub timestamp: Option<StampView>,
    pub level: LogLevel,
    pub target: Option<Seq<char>>,
    pub message: Seq<char>,
    pub fields: Seq<(Seq<char>, Seq<char>)>,
}

impl ParsedLine {
    pub open spec fn view(&self) -> ParsedView {
        ParsedView {
            timestamp: frame::stamp_view(self.timestamp),
            level: self.level,
            target: frame::text_view(self.target),
            message: self.message@,
            fields: frame::field_views(self.fields@),
        }
    }
}

} // verus!
