//! The debug form of a retry context.

use super::{Backoff, RetryConfig, RetryContext, RetrySafety};
use crate::instrumentation::Instrumentation;
use crate::text::push_decimal;
use vstd::prelude::*;
use vstd::string::*;

verus! {

impl Backoff {
    /// The debug form.
    pub open spec fn form(self) -> Seq<char> {
        match self {
            Backoff::Constant => "Constant"@,
            Backoff::Exponential { factor, max_delay_ms } => "Exponential { factor: "@
                + crate::text::decimal(factor as nat) + ", max_delay_ms: "@ + crate::text::decimal(
                max_delay_ms as nat,
            ) + " }"@,
        }
    }

    fn show(self, form: &mut String)
        ensures
            final(form)@ == old(form)@ + self.form(),
    {
        match self {
            Backoff::Constant => {
                form.append("Constant");
            },
            Backoff::Exponential { factor, max_delay_ms } => {
                form.append("Exponential { factor: ");
                push_decimal(form, factor as u64);
                form.append(", max_delay_ms: ");
                push_decimal(form, max_delay_ms);
                form.append(" }");
                assert(form@ =~= old(form)@ + self.form());
            },
        }
    }
}

impl RetryConfig {
    /// The debug form.
    pub open spec fn form(self) -> Seq<char> {
        "RetryConfig { max_attempts: "@ + crate::text::decimal(self.max_attempts as nat)
            + ", base_delay_ms: "@ + crate::text::decimal(self.base_delay_ms as nat)
            + ", backoff: "@ + self.backoff.form() + ", jitter_bps: "@ + crate::text::decimal(
            self.jitter_bps as nat,
        ) + " }"@
    }

    fn show(&self, form: &mut String)
        ensures
            final(form)@ == old(form)@ + self.form(),
    {
        form.append("RetryConfig { max_attempts: ");
        push_decimal(form, self.max_attempts as u64);
        form.append(", base_delay_ms: ");
        push_decimal(form, self.base_delay_ms);
        form.append(", backoff: ");
        self.backoff.show(form);
        form.append(", jitter_bps: ");
        push_decimal(form, self.jitter_bps as u64);
        form.append(" }");
        assert(form@ =~= old(form)@ + self.form());
    }
}

impl RetrySafety {
    /// The debug form.
    pub open spec fn form(self) -> Seq<char> {
        match self {
            RetrySafety::ReadOnly => "ReadOnly"@,
            RetrySafety::Idempotent => "Idempotent"@,
            RetrySafety::UnsafeSideEffect => "UnsafeSideEffect"@,
        }
    }

    fn show(self) -> (form: &'static str)
        ensures
            form@ == self.form(),
    {
        match self {
            RetrySafety::ReadOnly => "ReadOnly",
            RetrySafety::Idempotent => "Idempotent",
            RetrySafety::UnsafeSideEffect => "UnsafeSideEffect",
        }
    }
}

impl<'a, I: Instrumentation> RetryContext<'a, I> {
    /// The debug form, given the quoted name of the operation. The observer is left out, and of
    /// the budget it says only whether there is one.
    pub open spec fn form(self, op: Seq<char>) -> Seq<char> {
        "RetryContext { config: "@ + self.config().form() + ", safety: "@ + self.safety().form()
            + ", op: "@ + op + ", has_budget: "@ + crate::text::truth(self.budget() is Some)
            + ", jitter_seed: "@ + crate::text::decimal(self.jitter_seed() as nat) + ", .. }"@
    }

    /// The debug form.
    pub fn debug_string(&self) -> (form: String)
        ensures
            form@ == self.form(crate::text::quoted(self.op())),
    {
        let op: String = crate::text::quote(self.op_name());
        self.debug_string_from(op.as_str())
    }

    /// The debug form, put together from the quoted name of the operation.
    pub fn debug_string_from(&self, op: &str) -> (form: String)
        ensures
            form@ == self.form(op@),
    {
        let mut form: String = String::from_str("RetryContext { config: ");
        self.retry_config().show(&mut form);
        form.append(", safety: ");
        form.append(self.declared_safety().show());
        form.append(", op: ");
        form.append(op);
        form.append(", has_budget: ");
        form.append(crate::text::show_truth(self.has_budget()));
        form.append(", jitter_seed: ");
        push_decimal(&mut form, self.seed());
        form.append(", .. }");
        assert(form@ =~= self.form(op@));
        form
    }
}

/// A backoff shows its name, and an exponential one its factor and its bound.
pub proof fn law_backoff_form(factor: u32, max_delay_ms: u64)
    ensures
        Backoff::Constant.form() == "Constant"@,
        (Backoff::Exponential { factor, max_delay_ms }).form() == "Exponential { factor: "@
            + crate::text::decimal(factor as nat) + ", max_delay_ms: "@ + crate::text::decimal(
            max_delay_ms as nat,
        ) + " }"@,
{
}

/// A declared safety shows its name.
pub proof fn law_safety_form()
    ensures
        RetrySafety::ReadOnly.form() == "ReadOnly"@,
        RetrySafety::Idempotent.form() == "Idempotent"@,
        RetrySafety::UnsafeSideEffect.form() == "UnsafeSideEffect"@,
{
}

/// A configuration shows its four fields under their names, in order.
pub proof fn law_config_form(
    max_attempts: u32,
    base_delay_ms: u64,
    backoff: Backoff,
    jitter_bps: u32,
)
    ensures
        (RetryConfig { max_attempts, base_delay_ms, backoff, jitter_bps }).form()
            == "RetryConfig { max_attempts: "@ + crate::text::decimal(max_attempts as nat)
            + ", base_delay_ms: "@ + crate::text::decimal(base_delay_ms as nat) + ", backoff: "@
            + backoff.form() + ", jitter_bps: "@ + crate::text::decimal(jitter_bps as nat) + " }"@,
{
}

/// A context shows its configuration, its safety, the name of the operation as it was quoted,
/// whether it has a budget, and its seed. Two contexts that agree in these look the same, whatever
/// their observers are and however many tokens their budgets have.
pub proof fn law_context_form<'a, I: Instrumentation>(context: RetryContext<'a, I>, op: Seq<char>)
    ensures
        ({
            let front = "RetryContext { config: "@ + context.config().form() + ", safety: "@
                + context.safety().form() + ", op: "@ + op + ", has_budget: "@;
            let back = ", jitter_seed: "@ + crate::text::decimal(context.jitter_seed() as nat)
                + ", .. }"@;
            &&& context.budget() is Some ==> context.form(op) == front + "true"@ + back
            &&& context.budget() is None ==> context.form(op) == front + "false"@ + back
        }),
{
    let front = "RetryContext { config: "@ + context.config().form() + ", safety: "@
        + context.safety().form() + ", op: "@ + op + ", has_budget: "@;
    let seed = crate::text::decimal(context.jitter_seed() as nat);
    let shown = crate::text::truth(context.budget() is Some);
    assert(context.form(op) =~= front + shown + (", jitter_seed: "@ + seed + ", .. }"@));
}

} // verus!
