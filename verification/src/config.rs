use vstd::prelude::*;
use vstd::string::StringExecFns;

use crate::date::digit_char;
use crate::sink::SinkConfig;

verus! {

/// The startup rule on counts: with a single target anything goes; with
/// several, the folder count and the prefix count must each equal the
/// target count or be exactly one (broadcast to all). Broadcasting both
/// lists deliberately shares one file among every target; what is
/// refused are ragged counts that match neither the target count nor
/// one, which pair targets with files ambiguously.
pub open spec fn counts_valid(targets: nat, folders: nat, prefixes: nat) -> bool {
    targets == 1 || ((folders == targets || folders == 1) && (prefixes == targets
        || prefixes == 1))
}

/// The configured value for target number `i` out of `n`: positional
/// when the list matches the target count, else the single shared entry.
pub open spec fn spec_broadcast(list: Seq<String>, i: int, n: int) -> String {
    if list.len() == n {
        list[i]
    } else {
        list[0]
    }
}

/// The count-mismatch report: how many targets, folders and prefixes
/// the operator supplied.
#[derive(Clone, Copy, Debug, PartialEq, Eq, Structural)]
pub struct CountMismatch {
    pub targets: usize,
    pub folders: usize,
    pub prefixes: usize,
}

/// The decimal digits of a number, most significant first.
pub open spec fn spec_decimal(n: nat) -> Seq<char>
    decreases n,
{
    if n < 10 {
        seq![digit_char(n as int)]
    } else {
        spec_decimal(n / 10) + seq![digit_char((n % 10) as int)]
    }
}

/// The diagnostic text for a count mismatch.
pub open spec fn spec_mismatch_message(targets: nat, folders: nat, prefixes: nat) -> Seq<char> {
    "count mismatch: "@ + spec_decimal(targets) + " targets, "@ + spec_decimal(folders)
        + " folders, "@ + spec_decimal(prefixes) + " prefixes"@
}

/// Formats a number in decimal.
pub fn decimal_string(n: u64) -> (r: String)
    ensures
        r@ == spec_decimal(n as nat),
    decreases n,
{
    if n < 10 {
        String::from_str(crate::date::digit_str(n as u8))
    } else {
        assert(n / 10 < n) by (nonlinear_arith)
            requires
                n >= 10,
        ;
        let mut s = decimal_string(n / 10);
        s.append(crate::date::digit_str((n % 10) as u8));
        proof {
            assert(s@ =~= spec_decimal(n as nat));
        }
        s
    }
}

impl CountMismatch {
    /// The operator-facing diagnostic naming all three counts.
    pub fn message(&self) -> (r: String)
        ensures
            r@ == spec_mismatch_message(
                self.targets as nat,
                self.folders as nat,
                self.prefixes as nat,
            ),
    {
        let mut s = String::new();
        s.append("count mismatch: ");
        s.append(decimal_string(self.targets as u64).as_str());
        s.append(" targets, ");
        s.append(decimal_string(self.folders as u64).as_str());
        s.append(" folders, ");
        s.append(decimal_string(self.prefixes as u64).as_str());
        s.append(" prefixes");
        proof {
            assert(s@ =~= spec_mismatch_message(
                self.targets as nat,
                self.folders as nat,
                self.prefixes as nat,
            ));
        }
        s
    }
}

/// Checks the startup rule on the three counts.
pub fn validate_counts(targets: usize, folders: usize, prefixes: usize) -> (r: Result<
    (),
    CountMismatch,
>)
    ensures
        r is Ok <==> counts_valid(targets as nat, folders as nat, prefixes as nat),
        r matches Err(e) ==> e == (CountMismatch { targets, folders, prefixes }),
{
    if targets == 1 || ((folders == targets || folders == 1) && (prefixes == targets || prefixes
        == 1)) {
        Ok(())
    } else {
        Err(CountMismatch { targets, folders, prefixes })
    }
}

/// Picks the folder or prefix for target number `i`: the positional
/// entry when the list matches the target count, else the shared one.
fn select_for<'a>(list: &'a Vec<String>, i: usize, n: usize) -> (r: &'a String)
    requires
        list.len() >= 1,
        i < n,
    ensures
        *r == spec_broadcast(list@, i as int, n as int),
{
    if list.len() == n {
        &list[i]
    } else {
        &list[0]
    }
}

/// Builds one sink configuration per target from the operator's lists,
/// refusing exactly the count combinations the startup rule rejects.
pub fn build_sinks(
    targets: &Vec<String>,
    folders: &Vec<String>,
    prefixes: &Vec<String>,
    extension: &String,
) -> (r: Result<Vec<SinkConfig>, CountMismatch>)
    requires
        targets.len() >= 1,
        folders.len() >= 1,
        prefixes.len() >= 1,
    ensures
        r is Ok <==> counts_valid(targets@.len(), folders@.len(), prefixes@.len()),
        r matches Err(e) ==> e == (CountMismatch {
            targets: targets.len(),
            folders: folders.len(),
            prefixes: prefixes.len(),
        }),
        r matches Ok(sinks) ==> {
            &&& sinks@.len() == targets@.len()
            &&& forall|i: int|
                0 <= i < sinks@.len() ==> {
                    &&& (#[trigger] sinks@[i]).folder == spec_broadcast(
                        folders@,
                        i,
                        targets@.len() as int,
                    )
                    &&& sinks@[i].prefix == spec_broadcast(prefixes@, i, targets@.len() as int)
                    &&& sinks@[i].extension == *extension
                }
        },
{
    if let Err(e) = validate_counts(targets.len(), folders.len(), prefixes.len()) {
        return Err(e);
    }
    let n = targets.len();
    let mut sinks: Vec<SinkConfig> = Vec::new();
    let mut i: usize = 0;
    while i < n
        invariant
            n == targets@.len(),
            folders@.len() >= 1,
            prefixes@.len() >= 1,
            0 <= i <= n,
            sinks@.len() == i,
            forall|k: int|
                0 <= k < i ==> {
                    &&& (#[trigger] sinks@[k]).folder == spec_broadcast(folders@, k, n as int)
                    &&& sinks@[k].prefix == spec_broadcast(prefixes@, k, n as int)
                    &&& sinks@[k].extension == *extension
                },
        decreases n - i,
    {
        let folder = select_for(folders, i, n).clone();
        let prefix = select_for(prefixes, i, n).clone();
        sinks.push(SinkConfig { folder, prefix, extension: extension.clone() });
        i = i + 1;
    }
    Ok(sinks)
}

} // verus!
