//! The extra options of the interactive explorer.

use vstd::prelude::*;
use vstd::string::StringExecFns;

verus! {

/// An option that the user can switch on or off.
#[derive(Debug, Clone, Copy, PartialEq, Eq, PartialOrd, Ord, Structural)]
pub enum ExtraOption {
    Extract,
    Web,
    Ordinals,
    Atomicals,
}

impl ExtraOption {
    /// What the option is shown as.
    pub open spec fn label(self) -> Seq<char> {
        match self {
            ExtraOption::Extract => "Extract inscriptions to current directory"@,
            ExtraOption::Web => "Open inscription on web"@,
            ExtraOption::Ordinals => "Show standard Ordinals inscriptions"@,
            ExtraOption::Atomicals => "Show Atomicals inscriptions"@,
        }
    }

    /// All options, in their order.
    pub fn all() -> (r: Vec<ExtraOption>)
        ensures
            r@ == seq![
                ExtraOption::Extract,
                ExtraOption::Web,
                ExtraOption::Ordinals,
                ExtraOption::Atomicals,
            ],
    {
        let mut list: Vec<ExtraOption> = Vec::new();
        list.push(ExtraOption::Extract);
        list.push(ExtraOption::Web);
        list.push(ExtraOption::Ordinals);
        list.push(ExtraOption::Atomicals);
        assert(list@ =~= seq![
            ExtraOption::Extract,
            ExtraOption::Web,
            ExtraOption::Ordinals,
            ExtraOption::Atomicals,
        ]);
        list
    }

    /// What the option is shown as.
    pub fn to_string(&self) -> (r: String)
        ensures
            r@ == self.label(),
    {
        match self {
            ExtraOption::Extract => String::from_str("Extract inscriptions to current directory"),
            ExtraOption::Web => String::from_str("Open inscription on web"),
            ExtraOption::Ordinals => String::from_str("Show standard Ordinals inscriptions"),
            ExtraOption::Atomicals => String::from_str("Show Atomicals inscriptions"),
        }
    }
}

/// Which options are switched on.
#[derive(Debug, Clone, Copy, PartialEq, Eq)]
pub struct ExtraOptions {
    pub extract: bool,
    pub web: bool,
    pub ordinals: bool,
    pub atomicals: bool,
}

/// The one-element list of `index` if `set`, else the empty list.
pub open spec fn index_if(set: bool, index: usize) -> Seq<usize> {
    if set {
        seq![index]
    } else {
        Seq::empty()
    }
}

impl ExtraOptions {
    /// Whether an option is switched on.
    pub open spec fn has(self, opt: ExtraOption) -> bool {
        match opt {
            ExtraOption::Extract => self.extract,
            ExtraOption::Web => self.web,
            ExtraOption::Ordinals => self.ordinals,
            ExtraOption::Atomicals => self.atomicals,
        }
    }

    /// The positions, in the list of all options, of those switched on.
    pub open spec fn set_indexes(self) -> Seq<usize> {
        index_if(self.extract, 0) + index_if(self.web, 1) + index_if(self.ordinals, 2) + index_if(
            self.atomicals,
            3,
        )
    }

    /// Tells whether an option is switched on.
    pub fn is_set(&self, opt: &ExtraOption) -> (r: bool)
        ensures
            r == self.has(*opt),
    {
        match opt {
            ExtraOption::Extract => self.extract,
            ExtraOption::Web => self.web,
            ExtraOption::Ordinals => self.ordinals,
            ExtraOption::Atomicals => self.atomicals,
        }
    }

    /// The positions, in the list of all options, of those switched on, in
    /// rising order.
    pub fn current_set_indexes(&self) -> (r: Vec<usize>)
        ensures
            r@ == self.set_indexes(),
    {
        let all = ExtraOption::all();
        let mut indexes: Vec<usize> = Vec::new();
        let mut k: usize = 0;
        while k < 4
            invariant
                k <= 4,
                all@ == seq![
                    ExtraOption::Extract,
                    ExtraOption::Web,
                    ExtraOption::Ordinals,
                    ExtraOption::Atomicals,
                ],
                indexes@ == if k == 0 {
                    Seq::<usize>::empty()
                } else if k == 1 {
                    index_if(self.extract, 0)
                } else if k == 2 {
                    index_if(self.extract, 0) + index_if(self.web, 1)
                } else if k == 3 {
                    index_if(self.extract, 0) + index_if(self.web, 1) + index_if(self.ordinals, 2)
                } else {
                    self.set_indexes()
                },
            decreases 4 - k,
        {
            let ghost before = indexes@;
            if self.is_set(&all[k]) {
                indexes.push(k);
                assert(indexes@ =~= before + index_if(true, k));
            } else {
                assert(indexes@ =~= before + index_if(false, k));
            }
            k = k + 1;
        }
        indexes
    }

    /// Switches every option off.
    pub fn set_false(&mut self)
        ensures
            *final(self) == (ExtraOptions {
                extract: false,
                web: false,
                ordinals: false,
                atomicals: false,
            }),
    {
        self.extract = false;
        self.web = false;
        self.ordinals = false;
        self.atomicals = false;
    }

    /// Switches on exactly the options in `opts`.
    pub fn set_opts(&mut self, opts: &[ExtraOption])
        ensures
            forall|opt: ExtraOption| final(self).has(opt) == opts@.contains(opt),
    {
        self.set_false();
        let n = opts.len();
        let mut k: usize = 0;
        while k < n
            invariant
                k <= n,
                n == opts@.len(),
                forall|opt: ExtraOption| self.has(opt) == opts@.subrange(0, k as int).contains(opt),
            decreases n - k,
        {
            let ghost before = opts@.subrange(0, k as int);
            let ghost longer = opts@.subrange(0, k + 1);
            let ghost earlier = *self;
            match opts[k] {
                ExtraOption::Extract => {
                    self.extract = true;
                },
                ExtraOption::Web => {
                    self.web = true;
                },
                ExtraOption::Ordinals => {
                    self.ordinals = true;
                },
                ExtraOption::Atomicals => {
                    self.atomicals = true;
                },
            }
            proof {
                assert forall|opt: ExtraOption| self.has(opt) == longer.contains(opt) by {
                    assert(self.has(opt) == (earlier.has(opt) || opt == opts@[k as int]));
                    if longer.contains(opt) {
                        let j = choose|j: int| 0 <= j < longer.len() && longer[j] == opt;
                        if j < k {
                            assert(before[j] == opt);
                        }
                    }
                    if before.contains(opt) {
                        let j = choose|j: int| 0 <= j < before.len() && before[j] == opt;
                        assert(longer[j] == opt);
                    }
                    if opt == opts@[k as int] {
                        assert(longer[k as int] == opt);
                    }
                }
            }
            k = k + 1;
        }
        assert(opts@.subrange(0, n as int) =~= opts@);
    }
}

impl Default for ExtraOptions {
    /// Only the standard Ordinals inscriptions are switched on.
    fn default() -> (r: ExtraOptions)
        ensures
            r == (ExtraOptions { extract: false, web: false, ordinals: true, atomicals: false }),
    {
        ExtraOptions { extract: false, web: false, ordinals: true, atomicals: false }
    }
}

} // verus!
