//! Running the raw ML process in batch mode: its arguments and options.

use crate::number::{bool_text, bool_text_of, signed_decimal, signed_decimal_of};
use crate::text::lines_of;
use vstd::prelude::*;
use vstd::string::*;

verus! {

/// The options that a sequence of entries gives: each key with its value.
/// Where a key occurs twice, the later entry counts.
pub open spec fn options_of(entries: Seq<(String, String)>) -> Map<Seq<char>, Seq<char>>
    decreases entries.len(),
{
    if entries.len() == 0 {
        Map::empty()
    } else {
        options_of(entries.drop_last()).insert(entries.last().0@, entries.last().1@)
    }
}

/// No key occurs twice among the entries.
pub open spec fn distinct_keys(entries: Seq<(String, String)>) -> bool {
    forall|i: int, j: int|
        0 <= i < j < entries.len() ==> (#[trigger] entries[i]).0@ != (#[trigger] entries[j]).0@
}

/// The entries as `key=value` texts.
pub open spec fn assignments_of(entries: Seq<(String, String)>) -> Seq<Seq<char>> {
    entries.map_values(|entry: (String, String)| entry.0@ + seq!['='] + entry.1@)
}

/// Each of `items`, with `flag` before it.
pub open spec fn flagged(flag: Seq<char>, items: Seq<Seq<char>>) -> Seq<Seq<char>>
    decreases items.len(),
{
    if items.len() == 0 {
        Seq::empty()
    } else {
        flagged(flag, items.drop_last()).push(flag).push(items.last())
    }
}

proof fn lemma_absent_key(entries: Seq<(String, String)>, key: Seq<char>)
    requires
        forall|i: int| 0 <= i < entries.len() ==> (#[trigger] entries[i]).0@ != key,
    ensures
        !options_of(entries).dom().contains(key),
    decreases entries.len(),
{
    if entries.len() > 0 {
        let rest = entries.drop_last();
        assert forall|i: int| 0 <= i < rest.len() implies (#[trigger] rest[i]).0@ != key by {
            assert(rest[i] == entries[i]);
        }
        lemma_absent_key(rest, key);
        assert(entries.last() == entries[entries.len() - 1]);
    }
}

proof fn lemma_replaced_entry(entries: Seq<(String, String)>, i: int, entry: (String, String))
    requires
        0 <= i < entries.len(),
        distinct_keys(entries),
        entry.0@ == entries[i].0@,
    ensures
        options_of(entries.update(i, entry)) == options_of(entries).insert(entry.0@, entry.1@),
        distinct_keys(entries.update(i, entry)),
    decreases entries.len(),
{
    let updated = entries.update(i, entry);
    assert forall|a: int, b: int| 0 <= a < b < updated.len() implies (#[trigger] updated[a]).0@ != (
    #[trigger] updated[b]).0@ by {
        assert(updated[a].0@ == entries[a].0@);
        assert(updated[b].0@ == entries[b].0@);
    }
    let rest = entries.drop_last();
    if i == entries.len() - 1 {
        assert(updated.drop_last() =~= rest);
        assert(updated.last() == entry);
        assert(options_of(updated) =~= options_of(entries).insert(entry.0@, entry.1@));
    } else {
        assert(updated.drop_last() =~= rest.update(i, entry));
        assert(updated.last() == entries.last());
        assert forall|a: int, b: int| 0 <= a < b < rest.len() implies (#[trigger] rest[a]).0@ != (
        #[trigger] rest[b]).0@ by {
            assert(rest[a] == entries[a]);
            assert(rest[b] == entries[b]);
        }
        assert(rest[i] == entries[i]);
        lemma_replaced_entry(rest, i, entry);
        assert(entries[i].0@ != entries[entries.len() - 1].0@);
        assert(options_of(updated) =~= options_of(entries).insert(entry.0@, entry.1@));
    }
}

/// Builder that conveniently allows to specify common Isabelle options.
pub struct OptionsBuilder {
    options: Vec<(String, String)>,
}

impl OptionsBuilder {
    /// No key occurs twice.
    pub closed spec fn wf(&self) -> bool {
        distinct_keys(self.options@)
    }

    /// The options that have been set, each key with its value.
    pub closed spec fn view(&self) -> Map<Seq<char>, Seq<char>> {
        options_of(self.options@)
    }

    /// A builder with no option set.
    pub fn new() -> (builder: Self)
        ensures
            builder.wf(),
            builder@ == Map::<Seq<char>, Seq<char>>::empty(),
    {
        OptionsBuilder { options: Vec::new() }
    }

    /// Sets the option `k` to `value`, in place of what it was set to before.
    fn add_option(&mut self, k: &str, value: String)
        requires
            old(self).wf(),
        ensures
            final(self).wf(),
            final(self)@ == old(self)@.insert(k@, value@),
    {
        let key = k.to_owned();
        let mut i: usize = 0;
        while i < self.options.len()
            invariant
                i <= self.options.len(),
                self.options == old(self).options,
                distinct_keys(self.options@),
                key@ == k@,
                forall|j: int| 0 <= j < i ==> (#[trigger] self.options@[j]).0@ != k@,
            decreases self.options.len() - i,
        {
            if self.options[i].0 == key {
                proof {
                    lemma_replaced_entry(self.options@, i as int, (key, value));
                }
                self.options.set(i, (key, value));
                return ;
            }
            i = i + 1;
        }
        proof {
            lemma_absent_key(self.options@, k@);
            let pushed = self.options@.push((key, value));
            assert(pushed.drop_last() =~= self.options@);
            assert forall|a: int, b: int| 0 <= a < b < pushed.len() implies (#[trigger] pushed[a]).0@
                != (#[trigger] pushed[b]).0@ by {
                if b < self.options@.len() {
                    assert(pushed[a] == self.options@[a]);
                    assert(pushed[b] == self.options@[b]);
                } else {
                    assert(pushed[a] == self.options@[a]);
                }
            }
        }
        self.options.push((key, value));
    }

    /// Sets an option whose value is an integer.
    pub fn add_int_option(&mut self, k: &str, v: isize)
        requires
            old(self).wf(),
        ensures
            final(self).wf(),
            final(self)@ == old(self)@.insert(k@, signed_decimal_of(v as int)),
    {
        self.add_option(k, signed_decimal(v as i64));
    }

    /// Sets an option whose value is a truth value.
    pub fn add_bool_option(&mut self, k: &str, v: bool)
        requires
            old(self).wf(),
        ensures
            final(self).wf(),
            final(self)@ == old(self)@.insert(k@, bool_text_of(v)),
    {
        self.add_option(k, bool_text(v));
    }

    /// Maximum number of worker threads for prover process (0 = hardware max.)
    pub fn threads(&mut self, threads: isize) -> (builder: &mut Self)
        requires
            old(self).wf(),
        ensures
            builder.wf(),
            builder@ == old(self)@.insert("threads"@, signed_decimal_of(threads as int)),
            *final(self) == *final(builder),
    {
        self.add_int_option("threads", threads);
        self
    }

    /// Maximum stack size for worker threads (in giga words, 0 = unlimited),
    /// given as the decimal text of the number.
    pub fn thread_stack_limit(&mut self, limit: &str) -> (builder: &mut Self)
        requires
            old(self).wf(),
        ensures
            builder.wf(),
            builder@ == old(self)@.insert("threads_stack_limit"@, limit@),
            *final(self) == *final(builder),
    {
        self.add_option("threads_stack_limit", limit.to_owned());
        self
    }

    /// Approximative limit for parallel tasks (0 = unlimited)
    pub fn parallel_limit(&mut self, limit: isize) -> (builder: &mut Self)
        requires
            old(self).wf(),
        ensures
            builder.wf(),
            builder@ == old(self)@.insert("parallel_limit"@, signed_decimal_of(limit as int)),
            *final(self) == *final(builder),
    {
        self.add_int_option("parallel_limit", limit);
        self
    }

    /// Level of parallel proof checking: 0, 1, 2
    pub fn parallel_proofs(&mut self, limit: isize) -> (builder: &mut Self)
        requires
            old(self).wf(),
        ensures
            builder.wf(),
            builder@ == old(self)@.insert("parallel_proofs"@, signed_decimal_of(limit as int)),
            *final(self) == *final(builder),
    {
        self.add_int_option("parallel_proofs", limit);
        self
    }

    /// Scale factor for timeout in Isabelle/ML and session build, given as the
    /// decimal text of the number.
    pub fn timeout_scale(&mut self, scale: &str) -> (builder: &mut Self)
        requires
            old(self).wf(),
        ensures
            builder.wf(),
            builder@ == old(self)@.insert("timeout_scale"@, scale@),
            *final(self) == *final(builder),
    {
        self.add_option("timeout_scale", scale.to_owned());
        self
    }

    /// Level of proofterm recording: 0, 1, 2, negative means unchanged
    pub fn record_proofs(&mut self, level: isize) -> (builder: &mut Self)
        requires
            old(self).wf(),
        ensures
            builder.wf(),
            builder@ == old(self)@.insert("record_proofs"@, signed_decimal_of(level as int)),
            *final(self) == *final(builder),
    {
        self.add_int_option("record_proofs", level);
        self
    }

    /// If true then some tools will OMIT some proofs
    pub fn quick_and_dirty(&mut self, flag: bool) -> (builder: &mut Self)
        requires
            old(self).wf(),
        ensures
            builder.wf(),
            builder@ == old(self)@.insert("quick_and_dirty"@, bool_text_of(flag)),
            *final(self) == *final(builder),
    {
        self.add_bool_option("quick_and_dirty", flag);
        self
    }

    /// If true then skips over proofs (implicit 'sorry')
    pub fn skip_proofs(&mut self, flag: bool) -> (builder: &mut Self)
        requires
            old(self).wf(),
        ensures
            builder.wf(),
            builder@ == old(self)@.insert("skip_proofs"@, bool_text_of(flag)),
            *final(self) == *final(builder),
    {
        self.add_bool_option("skip_proofs", flag);
        self
    }

    /// Timeout for session build job (seconds > 0), given as the decimal text
    /// of the number.
    pub fn timeout(&mut self, limit: &str) -> (builder: &mut Self)
        requires
            old(self).wf(),
        ensures
            builder.wf(),
            builder@ == old(self)@.insert("timeout"@, limit@),
            *final(self) == *final(builder),
    {
        self.add_option("timeout", limit.to_owned());
        self
    }

    /// Observe timeout for session build (default 'true')
    pub fn timeout_build(&mut self, flag: bool) -> (builder: &mut Self)
        requires
            old(self).wf(),
        ensures
            builder.wf(),
            builder@ == old(self)@.insert("timeout_build"@, bool_text_of(flag)),
            *final(self) == *final(builder),
    {
        self.add_bool_option("timeout_build", flag);
        self
    }

    /// Build process output limit (in million characters, 0 = unlimited)
    pub fn process_output_limit(&mut self, limit: isize) -> (builder: &mut Self)
        requires
            old(self).wf(),
        ensures
            builder.wf(),
            builder@ == old(self)@.insert("process_output_limit"@, signed_decimal_of(limit as int)),
            *final(self) == *final(builder),
    {
        self.add_int_option("process_output_limit", limit);
        self
    }

    /// Build process output tail shown to user (in lines, 0 = unlimited)
    pub fn process_output_tail(&mut self, tail: isize) -> (builder: &mut Self)
        requires
            old(self).wf(),
        ensures
            builder.wf(),
            builder@ == old(self)@.insert("process_output_tail"@, signed_decimal_of(tail as int)),
            *final(self) == *final(builder),
    {
        self.add_int_option("process_output_tail", tail);
        self
    }

    /// Report PIDE markup (in ML) (default 'true')
    pub fn pide_reports(&mut self, flag: bool) -> (builder: &mut Self)
        requires
            old(self).wf(),
        ensures
            builder.wf(),
            builder@ == old(self)@.insert("pide_reports"@, bool_text_of(flag)),
            *final(self) == *final(builder),
    {
        self.add_bool_option("pide_reports", flag);
        self
    }

    /// Report PIDE markup (in batch build) (default 'true')
    pub fn build_pide_reports(&mut self, flag: bool) -> (builder: &mut Self)
        requires
            old(self).wf(),
        ensures
            builder.wf(),
            builder@ == old(self)@.insert("build_pide_reports"@, bool_text_of(flag)),
            *final(self) == *final(builder),
    {
        self.add_bool_option("build_pide_reports", flag);
        self
    }

    /// Consumes the builder and returns the options as entries, in the order
    /// in which their keys were first set.
    pub fn into_options(self) -> (entries: Vec<(String, String)>)
        requires
            self.wf(),
        ensures
            distinct_keys(entries@),
            options_of(entries@) == self@,
    {
        self.options
    }
}

/// Arguments for running the raw ML process in batch mode.
pub struct ProcessArgs {
    /// The theories to load (-T). Multiple theories are loaded in the given order.
    pub theories: Vec<String>,
    /// Include session directories (-d)
    pub session_dirs: Vec<String>,
    /// The The logic session name (default is ISABELLE_LOGIC="HOL")
    pub logic: Option<String>,
    /// Override Isabelle system options for this process (-o).
    /// Use [OptionsBuilder] to construct options.
    pub options: Vec<(String, String)>,
}

/// The arguments that the `isabelle` program is given to run the raw ML
/// process: `process`, then `-T` and a theory for each theory, `-d` and a
/// directory for each session directory, and `-o` and `key=value` for each
/// option.
pub open spec fn process_arguments_of(
    theories: Seq<Seq<char>>,
    session_dirs: Seq<Seq<char>>,
    options: Seq<(String, String)>,
) -> Seq<Seq<char>> {
    seq!["process"@] + flagged("-T"@, theories) + flagged("-d"@, session_dirs) + flagged(
        "-o"@,
        assignments_of(options),
    )
}

fn push_flagged(out: &mut Vec<String>, flag: &str, items: &Vec<String>)
    ensures
        lines_of(final(out)@) == lines_of(old(out)@) + flagged(flag@, lines_of(items@)),
{
    let ghost views = lines_of(items@);
    let mut i: usize = 0;
    assert(views.take(0) =~= Seq::<Seq<char>>::empty());
    assert(lines_of(out@) =~= lines_of(old(out)@) + flagged(flag@, views.take(0)));
    while i < items.len()
        invariant
            i <= items.len(),
            views == lines_of(items@),
            lines_of(out@) == lines_of(old(out)@) + flagged(flag@, views.take(i as int)),
        decreases items.len() - i,
    {
        let ghost seen = out@;
        out.push(flag.to_owned());
        out.push(items[i].clone());
        proof {
            let next = views.take(i + 1);
            assert(next.drop_last() =~= views.take(i as int));
            assert(next.last() == items@[i as int]@);
            assert(lines_of(out@) =~= lines_of(seen).push(flag@).push(items@[i as int]@));
            assert(lines_of(out@) =~= lines_of(old(out)@) + flagged(flag@, next));
        }
        i = i + 1;
    }
    assert(views.take(items.len() as int) =~= views);
}

fn assignments(options: &Vec<(String, String)>) -> (texts: Vec<String>)
    ensures
        lines_of(texts@) == assignments_of(options@),
{
    let mut texts: Vec<String> = Vec::new();
    let mut i: usize = 0;
    while i < options.len()
        invariant
            i <= options.len(),
            texts.len() == i,
            forall|j: int|
                0 <= j < i ==> (#[trigger] texts@[j])@ == options@[j].0@ + seq!['='] + options@[j].1@,
        decreases options.len() - i,
    {
        proof {
            reveal_strlit("=");
        }
        let mut text = options[i].0.clone();
        text.append("=");
        text.append(options[i].1.as_str());
        assert(text@ =~= options@[i as int].0@ + seq!['='] + options@[i as int].1@);
        texts.push(text);
        i = i + 1;
    }
    assert(lines_of(texts@) =~= assignments_of(options@));
    texts
}

impl ProcessArgs {
    /// Arguments that load the given theories and leave everything else out.
    pub fn load_theories(ths: &[String]) -> (args: Self)
        ensures
            args.theories@ == ths@,
            args.session_dirs@.len() == 0,
            args.logic is None,
            args.options@.len() == 0,
    {
        let mut theories: Vec<String> = Vec::new();
        let mut i: usize = 0;
        while i < ths.len()
            invariant
                i <= ths@.len(),
                theories@ == ths@.take(i as int),
            decreases ths@.len() - i,
        {
            theories.push(ths[i].clone());
            assert(ths@.take(i + 1) =~= ths@.take(i as int).push(ths@[i as int]));
            i = i + 1;
        }
        assert(ths@.take(ths@.len() as int) =~= ths@);
        ProcessArgs { theories, session_dirs: Vec::new(), logic: None, options: Vec::new() }
    }

    /// The arguments that the `isabelle` program is given for these.
    pub fn arguments(&self) -> (arguments: Vec<String>)
        ensures
            lines_of(arguments@) == process_arguments_of(
                lines_of(self.theories@),
                lines_of(self.session_dirs@),
                self.options@,
            ),
    {
        let mut arguments: Vec<String> = Vec::new();
        arguments.push("process".to_owned());
        assert(lines_of(arguments@) =~= seq!["process"@]);
        push_flagged(&mut arguments, "-T", &self.theories);
        push_flagged(&mut arguments, "-d", &self.session_dirs);
        push_flagged(&mut arguments, "-o", &assignments(&self.options));
        arguments
    }
}

} // verus!
