//! The error model of the primitives: the semantic class [`ErrorKind`] and the error type
//! [`ResiliencxError`].
//!
//! A primitive has to be able to decide whether a failure is worth another attempt. It asks the
//! class, never the wording: [`ResiliencxError::is_retryable`] holds of
//! [`ErrorKind::Transient`] alone.

use std::time::Duration;
use vstd::prelude::*;
use vstd::string::*;

verus! {

/// The result type of this crate.
pub type ResiliencxResult<T> = Result<T, ResiliencxError>;

/// What kind of reaction an error calls for.
#[non_exhaustive]
#[derive(Debug, Clone, Copy, PartialEq, Eq, Hash, Structural)]
pub enum ErrorKind {
    /// The request or its input is malformed; correct it before submitting again.
    Invalid,
    /// A requested entity, resource or declared dependency does not exist.
    Missing,
    /// The input is valid but conflicts with the current state.
    Conflict,
    /// A passing failure; the same request may succeed when retried.
    Transient,
    /// A dependency or a needed capability is unavailable.
    Unavailable,
    /// The operation was cancelled by its caller or by the system.
    Cancelled,
    /// The operation did not finish before its deadline.
    DeadlineExceeded,
    /// An internal invariant or precondition was broken: a bug.
    Invariant,
    /// An internal error that fits none of the other classes yet.
    Internal,
}

impl ErrorKind {
    /// The name of the class as it appears in messages.
    pub open spec fn label(self) -> Seq<char> {
        match self {
            ErrorKind::Invalid => "Invalid"@,
            ErrorKind::Missing => "Missing"@,
            ErrorKind::Conflict => "Conflict"@,
            ErrorKind::Transient => "Transient"@,
            ErrorKind::Unavailable => "Unavailable"@,
            ErrorKind::Cancelled => "Cancelled"@,
            ErrorKind::DeadlineExceeded => "DeadlineExceeded"@,
            ErrorKind::Invariant => "Invariant"@,
            ErrorKind::Internal => "Internal"@,
        }
    }

    fn show(self) -> (form: &'static str)
        ensures
            form@ == self.label(),
    {
        match self {
            ErrorKind::Invalid => "Invalid",
            ErrorKind::Missing => "Missing",
            ErrorKind::Conflict => "Conflict",
            ErrorKind::Transient => "Transient",
            ErrorKind::Unavailable => "Unavailable",
            ErrorKind::Cancelled => "Cancelled",
            ErrorKind::DeadlineExceeded => "DeadlineExceeded",
            ErrorKind::Invariant => "Invariant",
            ErrorKind::Internal => "Internal",
        }
    }
}

/// What an error says: its class, its context, an optional retry hint and the text of the error
/// that caused it, if any.
pub struct ErrorView {
    /// The semantic class.
    pub kind: ErrorKind,
    /// The readable context.
    pub context: Seq<char>,
    /// How long to wait before a retry, as a hint.
    pub retry_after: Option<Duration>,
    /// The text of the underlying error.
    pub source: Option<Seq<char>>,
}

impl ErrorView {
    /// An error with neither a retry hint nor a source.
    pub open spec fn plain(kind: ErrorKind, context: Seq<char>) -> ErrorView {
        ErrorView { kind, context, retry_after: None, source: None }
    }

    /// Whether another attempt may help.
    pub open spec fn retryable(self) -> bool {
        self.kind == ErrorKind::Transient
    }

    /// Only a transient error may carry a retry hint.
    pub open spec fn wf(self) -> bool {
        self.retry_after is Some ==> self.kind == ErrorKind::Transient
    }

    /// The message: the class, a colon and the context.
    pub open spec fn message(self) -> Seq<char> {
        self.kind.label() + ": "@ + self.context
    }

    /// The debug form, given the quoted context and the form of the retry hint. Of the source it
    /// says only that there is one.
    pub open spec fn debug_form(self, context: Seq<char>, retry_after: Seq<char>) -> Seq<char> {
        "ResiliencxError { kind: "@ + self.kind.label() + ", context: "@ + context
            + ", retry_after: "@ + (match self.retry_after {
            Some(_) => "Some("@ + retry_after + ")"@,
            None => "None"@,
        }) + ", source: "@ + (match self.source {
            Some(_) => "Some(\"...\")"@,
            None => "None"@,
        }) + " }"@
    }
}

/// Calls the conversion that std has from `&str`: the new string holds the same characters.
pub assume_specification<'_0>[ <String as std::convert::From<&str>>::from ](text: &str) -> (owned:
    String)
    ensures
        owned@ == text@,
;

/// Calls the conversion that std has from every type into itself: it gives its argument back.
pub assume_specification<Same>[ <Same as std::convert::From<Same>>::from ](given: Same) -> (same: Same)
    ensures
        same == given,
;

/// Whether converting `value` into a `String` may give one that reads `text`.
pub open spec fn converts_to<C: Into<String>>(value: C, text: Seq<char>) -> bool {
    exists|owned: String| #[trigger] call_ensures(C::into, (value,), owned) && owned@ == text
}

/// The error type of the primitives.
///
/// Its fields are private: it is made by one of the constructors and read by the query methods.
pub struct ResiliencxError {
    kind: ErrorKind,
    context: String,
    retry_after: Option<Duration>,
    source: Option<String>,
}

impl View for ResiliencxError {
    type V = ErrorView;

    closed spec fn view(&self) -> ErrorView {
        ErrorView {
            kind: self.kind,
            context: self.context@,
            retry_after: self.retry_after,
            source: match self.source {
                Some(text) => Some(text@),
                None => None,
            },
        }
    }
}

impl ResiliencxError {
    #[verifier::type_invariant]
    spec fn hint_is_transient(self) -> bool {
        self@.wf()
    }

    /// Makes an error of the given class. Only a transient error takes a retry hint.
    pub fn new<C: Into<String>>(
        kind: ErrorKind,
        context: C,
        retry_after: Option<Duration>,
    ) -> (error: ResiliencxError)
        requires
            retry_after is Some ==> kind == ErrorKind::Transient,
        ensures
            converts_to(context, error@.context),
            error@ == (ErrorView { retry_after, ..ErrorView::plain(kind, error@.context) }),
    {
        let context: String = context.into();
        ResiliencxError { kind, context, retry_after, source: None }
    }

    /// Makes an [`ErrorKind::Invalid`] error.
    pub fn invalid<C: Into<String>>(context: C) -> (error: ResiliencxError)
        ensures
            converts_to(context, error@.context),
            error@ == ErrorView::plain(ErrorKind::Invalid, error@.context),
    {
        Self::new(ErrorKind::Invalid, context, None)
    }

    /// Makes a [`ErrorKind::Missing`] error.
    pub fn missing<C: Into<String>>(context: C) -> (error: ResiliencxError)
        ensures
            converts_to(context, error@.context),
            error@ == ErrorView::plain(ErrorKind::Missing, error@.context),
    {
        Self::new(ErrorKind::Missing, context, None)
    }

    /// Makes a [`ErrorKind::Conflict`] error.
    pub fn conflict<C: Into<String>>(context: C) -> (error: ResiliencxError)
        ensures
            converts_to(context, error@.context),
            error@ == ErrorView::plain(ErrorKind::Conflict, error@.context),
    {
        Self::new(ErrorKind::Conflict, context, None)
    }

    /// Makes a [`ErrorKind::Transient`] error without a retry hint.
    pub fn transient<C: Into<String>>(context: C) -> (error: ResiliencxError)
        ensures
            converts_to(context, error@.context),
            error@ == ErrorView::plain(ErrorKind::Transient, error@.context),
    {
        Self::new(ErrorKind::Transient, context, None)
    }

    /// Makes a [`ErrorKind::Transient`] error with a retry hint.
    pub fn transient_after<C: Into<String>>(context: C, retry_after: Duration) -> (error:
        ResiliencxError)
        ensures
            converts_to(context, error@.context),
            error@ == (ErrorView {
                retry_after: Some(retry_after),
                ..ErrorView::plain(ErrorKind::Transient, error@.context)
            }),
    {
        Self::new(ErrorKind::Transient, context, Some(retry_after))
    }

    /// Makes an [`ErrorKind::Unavailable`] error.
    pub fn unavailable<C: Into<String>>(context: C) -> (error: ResiliencxError)
        ensures
            converts_to(context, error@.context),
            error@ == ErrorView::plain(ErrorKind::Unavailable, error@.context),
    {
        Self::new(ErrorKind::Unavailable, context, None)
    }

    /// Makes a [`ErrorKind::Cancelled`] error.
    pub fn cancelled<C: Into<String>>(context: C) -> (error: ResiliencxError)
        ensures
            converts_to(context, error@.context),
            error@ == ErrorView::plain(ErrorKind::Cancelled, error@.context),
    {
        Self::new(ErrorKind::Cancelled, context, None)
    }

    /// Makes a [`ErrorKind::DeadlineExceeded`] error.
    pub fn deadline_exceeded<C: Into<String>>(context: C) -> (error: ResiliencxError)
        ensures
            converts_to(context, error@.context),
            error@ == ErrorView::plain(ErrorKind::DeadlineExceeded, error@.context),
    {
        Self::new(ErrorKind::DeadlineExceeded, context, None)
    }

    /// Makes an [`ErrorKind::Invariant`] error.
    pub fn broken_invariant<C: Into<String>>(context: C) -> (error: ResiliencxError)
        ensures
            converts_to(context, error@.context),
            error@ == ErrorView::plain(ErrorKind::Invariant, error@.context),
    {
        Self::new(ErrorKind::Invariant, context, None)
    }

    /// Makes an [`ErrorKind::Internal`] error.
    ///
    /// Prefer a more precise class where one fits.
    pub fn internal<C: Into<String>>(context: C) -> (error: ResiliencxError)
        ensures
            converts_to(context, error@.context),
            error@ == ErrorView::plain(ErrorKind::Internal, error@.context),
    {
        Self::new(ErrorKind::Internal, context, None)
    }

    /// Attaches the text of the underlying error; everything else stays as it is.
    #[must_use]
    pub fn with_source<S: Into<String>>(self, source: S) -> (error: ResiliencxError)
        ensures
            error@.source is Some,
            converts_to(source, error@.source->0),
            error@ == (ErrorView { source: error@.source, ..self@ }),
    {
        proof {
            use_type_invariant(&self);
        }
        let source: String = source.into();
        ResiliencxError {
            kind: self.kind,
            context: self.context,
            retry_after: self.retry_after,
            source: Some(source),
        }
    }

    /// The semantic class.
    #[must_use]
    pub fn kind(&self) -> (kind: ErrorKind)
        ensures
            kind == self@.kind,
    {
        self.kind
    }

    /// The readable context.
    #[must_use]
    pub fn context(&self) -> (context: &str)
        ensures
            context@ == self@.context,
    {
        self.context.as_str()
    }

    /// How long to wait before a retry; only a transient error may say so.
    #[must_use]
    pub fn retry_after(&self) -> (hint: Option<Duration>)
        ensures
            hint == self@.retry_after,
            hint is Some ==> self@.kind == ErrorKind::Transient,
    {
        proof {
            use_type_invariant(self);
        }
        self.retry_after
    }

    /// The text of the underlying error, if one was attached.
    #[must_use]
    pub fn source(&self) -> (source: Option<&str>)
        ensures
            match source {
                Some(text) => self@.source == Some(text@),
                None => self@.source is None,
            },
    {
        match &self.source {
            Some(text) => Some(text.as_str()),
            None => None,
        }
    }

    /// Whether another attempt may help: exactly the transient errors.
    #[must_use]
    pub fn is_retryable(&self) -> (retryable: bool)
        ensures
            retryable == self@.retryable(),
            retryable == (self@.kind == ErrorKind::Transient),
    {
        self.kind == ErrorKind::Transient
    }

    /// Whether the error reports a bug: exactly the broken invariants.
    #[must_use]
    pub fn is_bug(&self) -> (bug: bool)
        ensures
            bug == (self@.kind == ErrorKind::Invariant),
    {
        self.kind == ErrorKind::Invariant
    }

    /// The message: the class, a colon and the context. The source is left out.
    pub fn to_string(&self) -> (message: String)
        ensures
            message@ == self@.message(),
    {
        let mut message: String = String::from_str(self.kind.show());
        message.append(": ");
        message.append(self.context.as_str());
        message
    }

    /// The debug form. Of the source it says only that there is one.
    pub fn debug_string(&self) -> (form: String)
        ensures
            form@ == self@.debug_form(
                crate::text::quoted(self@.context),
                match self@.retry_after {
                    Some(hint) => crate::text::duration_form(hint),
                    None => Seq::empty(),
                },
            ),
    {
        let context: String = crate::text::quote(self.context.as_str());
        let hint: String = match self.retry_after {
            Some(hint) => crate::text::show_duration(hint),
            None => String::new(),
        };
        self.debug_string_from(context.as_str(), hint.as_str())
    }

    /// The debug form, put together from the quoted context and the form of the retry hint.
    pub fn debug_string_from(&self, context: &str, retry_after: &str) -> (form: String)
        ensures
            form@ == self@.debug_form(context@, retry_after@),
    {
        let mut form: String = String::from_str("ResiliencxError { kind: ");
        form.append(self.kind.show());
        form.append(", context: ");
        form.append(context);
        form.append(", retry_after: ");
        match self.retry_after {
            Some(_) => {
                form.append("Some(");
                form.append(retry_after);
                form.append(")");
            },
            None => {
                form.append("None");
            },
        }
        form.append(", source: ");
        match &self.source {
            Some(_) => {
                form.append("Some(\"...\")");
            },
            None => {
                form.append("None");
            },
        }
        form.append(" }");
        form
    }
}

/// The message and the debug form give away nothing of the source but that there is one.
pub proof fn law_source_stays_out_of_the_text(a: ErrorView, b: ErrorView)
    requires
        a.kind == b.kind,
        a.context == b.context,
        a.retry_after == b.retry_after,
    ensures
        a.message() == b.message(),
        (a.source is Some) == (b.source is Some) ==> forall|context: Seq<char>, hint: Seq<char>|
            #[trigger] a.debug_form(context, hint) == b.debug_form(context, hint),
{
}

/// Every class has its own name in messages.
pub proof fn law_class_names(kind: ErrorKind)
    ensures
        kind == ErrorKind::Invalid ==> kind.label() == "Invalid"@,
        kind == ErrorKind::Missing ==> kind.label() == "Missing"@,
        kind == ErrorKind::Conflict ==> kind.label() == "Conflict"@,
        kind == ErrorKind::Transient ==> kind.label() == "Transient"@,
        kind == ErrorKind::Unavailable ==> kind.label() == "Unavailable"@,
        kind == ErrorKind::Cancelled ==> kind.label() == "Cancelled"@,
        kind == ErrorKind::DeadlineExceeded ==> kind.label() == "DeadlineExceeded"@,
        kind == ErrorKind::Invariant ==> kind.label() == "Invariant"@,
        kind == ErrorKind::Internal ==> kind.label() == "Internal"@,
{
}

/// A message is the name of the class, a colon, a space and then the whole context and nothing
/// else: whatever the context, it is what is left when as many characters as the name has, and two
/// more, are taken off the front.
pub proof fn law_message_is_class_and_context(error: ErrorView)
    ensures
        ({
            let name = error.kind.label().len() as int;
            &&& error.message().len() == name + 2 + error.context.len()
            &&& error.message().take(name) == error.kind.label()
            &&& error.message()[name] == ':'
            &&& error.message()[name + 1] == ' '
            &&& error.message().skip(name + 2) == error.context
        }),
{
    reveal_strlit(": ");
    let name = error.kind.label().len() as int;
    assert(error.message().take(name) =~= error.kind.label());
    assert(error.message().skip(name + 2) =~= error.context);
}

/// An error that was given a class and a context has these, and neither a hint nor a source.
pub proof fn law_plain_errors_hold_nothing_else(kind: ErrorKind, context: Seq<char>)
    ensures
        ErrorView::plain(kind, context).kind == kind,
        ErrorView::plain(kind, context).context == context,
        ErrorView::plain(kind, context).retry_after is None,
        ErrorView::plain(kind, context).source is None,
{
}

/// Of the nine classes exactly one is worth another attempt.
pub proof fn law_only_transient_is_retryable(error: ErrorView)
    ensures
        error.kind == ErrorKind::Transient ==> error.retryable(),
        error.kind != ErrorKind::Transient ==> !error.retryable(),
        error.wf() && error.kind != ErrorKind::Transient ==> error.retry_after is None,
{
}

/// A context or a source that is given as text, borrowed or owned, is kept character by character.
pub proof fn law_texts_are_kept(owned: String, borrowed: &str, text: Seq<char>)
    ensures
        converts_to(owned, text) ==> text == owned@,
        converts_to(borrowed, text) ==> text == borrowed@,
{
}

/// The debug form names the class, shows the context as it was quoted, shows the hint if there is
/// one, and says whether there is a source.
pub proof fn law_debug_form_shows_every_field(
    error: ErrorView,
    context: Seq<char>,
    retry_after: Seq<char>,
)
    ensures
        ({
            let front = "ResiliencxError { kind: "@ + error.kind.label() + ", context: "@ + context
                + ", retry_after: "@;
            let form = error.debug_form(context, retry_after);
            &&& error.retry_after is None && error.source is None ==> form == front + "None"@
                + ", source: "@ + "None"@ + " }"@
            &&& error.retry_after is None && error.source is Some ==> form == front + "None"@
                + ", source: "@ + "Some(\"...\")"@ + " }"@
            &&& error.retry_after is Some && error.source is None ==> form == front + "Some("@
                + retry_after + ")"@ + ", source: "@ + "None"@ + " }"@
            &&& error.retry_after is Some && error.source is Some ==> form == front + "Some("@
                + retry_after + ")"@ + ", source: "@ + "Some(\"...\")"@ + " }"@
        }),
{
    let front = "ResiliencxError { kind: "@ + error.kind.label() + ", context: "@ + context
        + ", retry_after: "@;
    if error.retry_after is Some {
        assert(front + ("Some("@ + retry_after + ")"@) =~= front + "Some("@ + retry_after + ")"@);
    }
}

} // verus!
