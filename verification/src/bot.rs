use vstd::prelude::*;

use crate::config::Config;
use crate::content::Content;
use crate::errors::Error;

verus! {

/// One planned action of the bot loop, for the caller to carry out in
/// order.
#[derive(Debug)]
pub enum Step {
    /// Show the content without publishing it (dry-run mode).
    Print(Content),
    /// Publish the content.
    Publish(Content),
    /// Sleep this many seconds.
    Pause(u64),
    /// Log this recoverable error; the round ends here and the next round
    /// follows.
    Warn(Error),
    /// Stop the whole run with this fatal error.
    Fail(Error),
}

/// The actions owed for one feed's new content, in order: in dry-run mode
/// each content is shown; otherwise each content is published and the
/// inter-item delay follows it.
pub open spec fn feed_steps_spec(contents: Seq<Content>, dry_run: bool, items_sleep: u64) -> Seq<
    Step,
>
    decreases contents.len(),
{
    if contents.len() == 0 {
        Seq::empty()
    } else if dry_run {
        seq![Step::Print(contents[0])] + feed_steps_spec(contents.skip(1), dry_run, items_sleep)
    } else {
        seq![Step::Publish(contents[0]), Step::Pause(items_sleep)] + feed_steps_spec(
            contents.skip(1),
            dry_run,
            items_sleep,
        )
    }
}

/// The actions owed for one round, given each feed's check result in
/// configured order: the feeds' actions follow one another; the first
/// failed check ends the round, with the run going on after a recoverable
/// error and stopping on any other; a round not stopped ends with the
/// inter-round delay.
pub open spec fn round_steps_spec(
    results: Seq<Result<Vec<Content>, Error>>,
    dry_run: bool,
    items_sleep: u64,
    watting_new: u64,
) -> Seq<Step>
    decreases results.len(),
{
    if results.len() == 0 {
        seq![Step::Pause(watting_new)]
    } else {
        match results[0] {
            Ok(cs) => feed_steps_spec(cs@, dry_run, items_sleep) + round_steps_spec(
                results.skip(1),
                dry_run,
                items_sleep,
                watting_new,
            ),
            Err(e) => if e.recoverable() {
                seq![Step::Warn(e), Step::Pause(watting_new)]
            } else {
                seq![Step::Fail(e)]
            },
        }
    }
}

/// The bot: the run configuration, and the planner that turns check results
/// into the actions of a round.
#[derive(Debug)]
pub struct Bot {
    pub config: Config,
}

impl Bot {
    /// Wraps a run configuration.  It never fails; the result form mirrors
    /// the startup interface.
    pub fn new(config: Config) -> (r: Result<Bot, Error>)
        ensures
            r matches Ok(b) && b.config == config,
    {
        Ok(Bot { config })
    }

    /// Plans the actions for one feed's new content.
    pub fn plan_feed(&self, contents: Vec<Content>) -> (r: Vec<Step>)
        ensures
            r@ == feed_steps_spec(contents@, self.config.dry_run, self.config.items_sleep),
    {
        let ghost orig = contents@;
        let mut v = contents;
        let mut out: Vec<Step> = Vec::new();
        proof {
            assert(out@ + feed_steps_spec(orig, self.config.dry_run, self.config.items_sleep)
                =~= feed_steps_spec(orig, self.config.dry_run, self.config.items_sleep));
        }
        while v.len() > 0
            invariant
                feed_steps_spec(orig, self.config.dry_run, self.config.items_sleep) == out@
                    + feed_steps_spec(v@, self.config.dry_run, self.config.items_sleep),
            decreases v@.len(),
        {
            let ghost oldv = v@;
            let ghost pre = out@;
            let c = v.remove(0);
            proof {
                assert(c == oldv[0]);
                assert(v@ =~= oldv.skip(1));
            }
            if self.config.dry_run {
                out.push(Step::Print(c));
                proof {
                    assert(pre + (seq![Step::Print(oldv[0])] + feed_steps_spec(
                        v@,
                        self.config.dry_run,
                        self.config.items_sleep,
                    )) =~= out@ + feed_steps_spec(v@, self.config.dry_run, self.config.items_sleep));
                }
            } else {
                out.push(Step::Publish(c));
                out.push(Step::Pause(self.config.items_sleep));
                proof {
                    assert(pre + (seq![
                        Step::Publish(oldv[0]),
                        Step::Pause(self.config.items_sleep),
                    ] + feed_steps_spec(v@, self.config.dry_run, self.config.items_sleep)) =~= out@
                        + feed_steps_spec(v@, self.config.dry_run, self.config.items_sleep));
                }
            }
        }
        proof {
            assert(out@ + feed_steps_spec(v@, self.config.dry_run, self.config.items_sleep)
                =~= out@);
        }
        out
    }

    /// Plans the actions for one round, from each feed's check result in
    /// configured order.
    pub fn plan_round(&self, results: Vec<Result<Vec<Content>, Error>>) -> (r: Vec<Step>)
        ensures
            r@ == round_steps_spec(
                results@,
                self.config.dry_run,
                self.config.items_sleep,
                self.config.watting_new,
            ),
    {
        let ghost orig = results@;
        let mut v = results;
        let mut out: Vec<Step> = Vec::new();
        proof {
            assert(out@ + round_steps_spec(
                orig,
                self.config.dry_run,
                self.config.items_sleep,
                self.config.watting_new,
            ) =~= round_steps_spec(
                orig,
                self.config.dry_run,
                self.config.items_sleep,
                self.config.watting_new,
            ));
        }
        while v.len() > 0
            invariant
                orig == results@,
                round_steps_spec(
                    orig,
                    self.config.dry_run,
                    self.config.items_sleep,
                    self.config.watting_new,
                ) == out@ + round_steps_spec(
                    v@,
                    self.config.dry_run,
                    self.config.items_sleep,
                    self.config.watting_new,
                ),
            decreases v@.len(),
        {
            let ghost oldv = v@;
            let ghost pre = out@;
            let res = v.remove(0);
            proof {
                assert(res == oldv[0]);
                assert(v@ =~= oldv.skip(1));
            }
            match res {
                Ok(cs) => {
                    let mut steps = self.plan_feed(cs);
                    let ghost stepseq = steps@;
                    out.append(&mut steps);
                    proof {
                        assert(pre + (stepseq + round_steps_spec(
                            v@,
                            self.config.dry_run,
                            self.config.items_sleep,
                            self.config.watting_new,
                        )) =~= out@ + round_steps_spec(
                            v@,
                            self.config.dry_run,
                            self.config.items_sleep,
                            self.config.watting_new,
                        ));
                    }
                },
                Err(e) => {
                    let ghost err = e;
                    if e.is_recoverable() {
                        out.push(Step::Warn(e));
                        out.push(Step::Pause(self.config.watting_new));
                        proof {
                            assert(round_steps_spec(
                                oldv,
                                self.config.dry_run,
                                self.config.items_sleep,
                                self.config.watting_new,
                            ) == seq![Step::Warn(err), Step::Pause(self.config.watting_new)]);
                            assert(out@ =~= pre + seq![
                                Step::Warn(err),
                                Step::Pause(self.config.watting_new),
                            ]);
                        }
                    } else {
                        out.push(Step::Fail(e));
                        proof {
                            assert(round_steps_spec(
                                oldv,
                                self.config.dry_run,
                                self.config.items_sleep,
                                self.config.watting_new,
                            ) == seq![Step::Fail(err)]);
                            assert(out@ =~= pre + seq![Step::Fail(err)]);
                        }
                    }
                    return out;
                },
            }
        }
        out.push(Step::Pause(self.config.watting_new));
        proof {
            assert(out@ =~= round_steps_spec(
                orig,
                self.config.dry_run,
                self.config.items_sleep,
                self.config.watting_new,
            ));
        }
        out
    }
}

} // verus!
