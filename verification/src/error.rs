//! The typed failure every core operation reports upward.
//!
//! A [`CliError`] carries a short machine code, a human message, optional
//! structured details (a status record or the service's error list), and an
//! optional server-supplied retry delay. Rendering joins the messages found
//! in the details onto the main message.

use vstd::prelude::*;

use crate::json::{spec_get, JsonValue};

verus! {

use vstd::string::StringExecFns;

/// A typed failure: machine code, human message, optional structured
/// details, optional server retry hint in seconds.
#[derive(Debug, PartialEq)]
pub struct CliError {
    pub code: u8,
    pub message: String,
    pub details: Option<JsonValue>,
    pub retry_after: Option<u64>,
}

impl CliError {
    /// A fresh error with no details and no retry hint.
    pub fn new(code: u8, message: &str) -> (r: CliError)
        ensures
            r.code == code,
            r.message@ == message@,
            r.details is None,
            r.retry_after is None,
    {
        CliError { code, message: message.to_owned(), details: Option::None, retry_after: Option::None }
    }

    /// The same error, with structured details attached.
    pub fn with_details(self, details: JsonValue) -> (r: CliError)
        ensures
            r.code == self.code,
            r.message == self.message,
            r.details == Option::Some(details),
            r.retry_after == self.retry_after,
    {
        CliError { details: Option::Some(details), ..self }
    }

    /// The same error, with the server's retry hint attached.
    pub fn with_retry_after(self, retry_after: Option<u64>) -> (r: CliError)
        ensures
            r.code == self.code,
            r.message == self.message,
            r.details == self.details,
            r.retry_after == retry_after,
    {
        CliError { retry_after, ..self }
    }

    /// Render this error for a reader: the message, then any messages
    /// found in the details.
    pub fn display_string(&self) -> (r: String)
        ensures
            r@ == display_spec(*self),
    {
        let mut out = self.message.clone();
        match &self.details {
            Option::None => out,
            Option::Some(d) => {
                match d {
                    JsonValue::Arr(errs) => {
                        append_joined(&mut out, errs);
                        out
                    },
                    _ => {
                        match d.get("message") {
                            Option::Some(m) => {
                                match m.as_str() {
                                    Option::Some(s) => {
                                        out.append(": ");
                                        out.append(s);
                                        return out;
                                    },
                                    Option::None => {},
                                }
                            },
                            Option::None => {},
                        }
                        match d.get("errors") {
                            Option::Some(e) => {
                                match e.as_array() {
                                    Option::Some(errs) => {
                                        append_joined(&mut out, errs);
                                    },
                                    Option::None => {},
                                }
                            },
                            Option::None => {},
                        }
                        out
                    },
                }
            },
        }
    }
}

/// The message string inside one entry of the service's error list.
pub open spec fn message_of(v: JsonValue) -> Option<Seq<char>> {
    match spec_get(v, "message"@) {
        Option::Some(m) => match m {
            JsonValue::Str(s) => Option::Some(s@),
            _ => Option::None,
        },
        Option::None => Option::None,
    }
}

/// All message strings found in an error list, in order.
pub open spec fn collect_messages(errs: Seq<JsonValue>) -> Seq<Seq<char>>
    decreases errs.len(),
{
    if errs.len() == 0 {
        Seq::empty()
    } else {
        let rest = collect_messages(errs.drop_first());
        match message_of(errs[0]) {
            Option::Some(m) => seq![m] + rest,
            Option::None => rest,
        }
    }
}

/// The messages joined for display: `": "` before the first one (when
/// `any` is still false) and `"; "` between the rest.
pub open spec fn join_rest(msgs: Seq<Seq<char>>, any: bool) -> Seq<char>
    decreases msgs.len(),
{
    if msgs.len() == 0 {
        Seq::empty()
    } else {
        (if any {
            "; "@
        } else {
            ": "@
        }) + msgs[0] + join_rest(msgs.drop_first(), true)
    }
}

/// What the details of an error add to its rendering.
pub open spec fn display_suffix(details: Option<JsonValue>) -> Seq<char> {
    match details {
        Option::None => Seq::empty(),
        Option::Some(d) => match d {
            JsonValue::Arr(errs) => join_rest(collect_messages(errs@), false),
            _ => {
                if message_of(d) is Some {
                    ": "@ + message_of(d)->0
                } else {
                    match spec_get(d, "errors"@) {
                        Option::Some(e) => match e {
                            JsonValue::Arr(errs) => join_rest(collect_messages(errs@), false),
                            _ => Seq::empty(),
                        },
                        Option::None => Seq::empty(),
                    }
                }
            },
        },
    }
}

/// The full rendering of an error.
pub open spec fn display_spec(e: CliError) -> Seq<char> {
    e.message@ + display_suffix(e.details)
}

/// Append the joined messages of `errs` to `out`.
#[verifier::loop_isolation(false)]
fn append_joined(out: &mut String, errs: &Vec<JsonValue>)
    ensures
        final(out)@ == old(out)@ + join_rest(collect_messages(errs@), false),
{
    let mut any = false;
    let mut i: usize = 0;
    proof {
        assert(errs@.skip(0) =~= errs@);
    }
    while i < errs.len()
        invariant
            i <= errs.len(),
            out@ + join_rest(collect_messages(errs@.skip(i as int)), any) == old(out)@
                + join_rest(collect_messages(errs@), false),
        decreases errs.len() - i,
    {
        proof {
            assert(errs@.skip(i as int).drop_first() =~= errs@.skip(i + 1));
            assert(errs@.skip(i as int)[0] == errs@[i as int]);
        }
        let ghost pre = out@;
        let ghost was_any = any;
        let ghost msgs = collect_messages(errs@.skip(i as int));
        let ghost rest = collect_messages(errs@.skip(i + 1));
        match errs[i].get("message") {
            Option::Some(m) => {
                match m.as_str() {
                    Option::Some(s) => {
                        proof {
                            assert(msgs == seq![s@] + rest);
                            assert(msgs.drop_first() =~= rest);
                            assert(msgs[0] == s@);
                        }
                        if any {
                            out.append("; ");
                        } else {
                            out.append(": ");
                        }
                        out.append(s);
                        any = true;
                        proof {
                            assert(out@ + join_rest(rest, true) =~= pre + join_rest(
                                msgs,
                                was_any,
                            ));
                        }
                    },
                    Option::None => {},
                }
            },
            Option::None => {},
        }
        i = i + 1;
        proof {
            assert(out@ + join_rest(collect_messages(errs@.skip(i as int)), any) =~= old(out)@
                + join_rest(collect_messages(errs@), false));
        }
    }
    proof {
        assert(errs@.skip(errs@.len() as int) =~= Seq::<JsonValue>::empty());
        assert(final(out)@ =~= old(out)@ + join_rest(collect_messages(errs@), false));
    }
}

} // verus!
