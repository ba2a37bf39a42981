use vstd::prelude::*;

verus! {

/// Code of an action that the user interface may offer next to an error.
#[derive(Clone, Copy, Debug, PartialEq, Eq, Structural)]
pub enum ErrorActionCode {
    FileSaveRetry,
    FileSaveRetryForced,
    FileReadRetry,
    InitOnceRetry,
    PrepareCacheRetry,
    WatchPathRetry,
    NoRootPath,
}

/// A structured error: kind (title), human message, raw diagnostic text and
/// the per-item errors of a batch operation.
#[derive(Debug)]
pub struct ErrorFromRust {
    pub is_error: bool,
    pub title: String,
    pub info: Option<String>,
    pub raw_error: Option<String>,
    pub sub_errors: Vec<ErrorFromRust>,
    pub action_code: Option<ErrorActionCode>,
    pub action_label: Option<String>,
}

/// Text of an optional string, as a sequence of characters.
pub open spec fn opt_view(o: Option<String>) -> Option<Seq<char>> {
    match o {
        Some(s) => Some(s@),
        None => None,
    }
}

impl ErrorFromRust {
    /// An error with the given title and nothing else set.
    pub fn new(title: &str) -> (r: Self)
        ensures
            r.is_error,
            r.title@ == title@,
            r.info is None,
            r.raw_error is None,
            r.sub_errors@.len() == 0,
            r.action_code is None,
            r.action_label is None,
    {
        ErrorFromRust {
            is_error: true,
            title: title.to_string(),
            info: None,
            raw_error: None,
            sub_errors: Vec::new(),
            action_code: None,
            action_label: None,
        }
    }

    /// Sets the human readable description.
    pub fn info(self, description: &str) -> (r: Self)
        ensures
            opt_view(r.info) == Some(description@),
            r.is_error == self.is_error,
            r.title == self.title,
            r.raw_error == self.raw_error,
            r.sub_errors == self.sub_errors,
            r.action_code == self.action_code,
            r.action_label == self.action_label,
    {
        let mut s = self;
        s.info = Some(description.to_string());
        s
    }

    /// Sets the suggested action and the label of its button.
    pub fn action_c(self, code: ErrorActionCode, label: &str) -> (r: Self)
        ensures
            r.action_code == Some(code),
            opt_view(r.action_label) == Some(label@),
            r.is_error == self.is_error,
            r.title == self.title,
            r.info == self.info,
            r.raw_error == self.raw_error,
            r.sub_errors == self.sub_errors,
    {
        let mut s = self;
        s.action_code = Some(code);
        s.action_label = Some(label.to_string());
        s
    }

    /// Sets the raw diagnostic text (an underlying error's message, a query).
    pub fn raw(self, thing: &str) -> (r: Self)
        ensures
            opt_view(r.raw_error) == Some(thing@),
            r.is_error == self.is_error,
            r.title == self.title,
            r.info == self.info,
            r.sub_errors == self.sub_errors,
            r.action_code == self.action_code,
            r.action_label == self.action_label,
    {
        let mut s = self;
        s.raw_error = Some(thing.to_string());
        s
    }

    /// Appends one per-item error.
    pub fn sub(self, thing: ErrorFromRust) -> (r: Self)
        ensures
            r.sub_errors@ == self.sub_errors@.push(thing),
            r.is_error == self.is_error,
            r.title == self.title,
            r.info == self.info,
            r.raw_error == self.raw_error,
            r.action_code == self.action_code,
            r.action_label == self.action_label,
    {
        let mut s = self;
        s.sub_errors.push(thing);
        s
    }

    /// Replaces the per-item errors.
    pub fn subs(self, full_array_to_set: Vec<ErrorFromRust>) -> (r: Self)
        ensures
            r.sub_errors == full_array_to_set,
            r.is_error == self.is_error,
            r.title == self.title,
            r.info == self.info,
            r.raw_error == self.raw_error,
            r.action_code == self.action_code,
            r.action_label == self.action_label,
    {
        let mut s = self;
        s.sub_errors = full_array_to_set;
        s
    }
}


/// What went wrong with one entry of a batch: its file name and the message.
#[derive(Clone, Debug)]
pub struct CacheBatchErr {
    pub filename: String,
    pub error_text: String,
}

/// The error of a batch operation that went on past its failures: none when
/// every item succeeded, else one error titled `title` that holds each
/// per-item error, in order.
pub fn batch_error(title: &str, errors: Vec<ErrorFromRust>) -> (r: Option<ErrorFromRust>)
    ensures
        errors@.len() == 0 ==> r is None,
        errors@.len() > 0 ==> (r matches Some(e) && e.title@ == title@ && e.sub_errors == errors),
{
    if errors.len() == 0 {
        None
    } else {
        Some(ErrorFromRust::new(title).subs(errors))
    }
}

} // verus!
