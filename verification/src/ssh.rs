//! A named connection and the argument list it hands to `ssh`.
use vstd::prelude::*;
use vstd::string::StringExecFns;

use crate::text::{dec_digits, u64_to_string};

verus! {

/// One configured connection.
#[derive(Debug, Clone)]
pub struct SSHConnection {
    /// Matches the host alias in the user's configuration.
    pub name: String,
    pub description: String,
    pub hostname: String,
    pub user: String,
    pub port: u16,
    pub identity_file: Option<String>,
    /// Extra options as key-and-value pairs.
    pub extra_options: Vec<String>,
}

impl Default for SSHConnection {
    fn default() -> (c: SSHConnection)
        ensures
            c.name@ == Seq::<char>::empty(),
            c.description@ == Seq::<char>::empty(),
            c.hostname@ == Seq::<char>::empty(),
            c.user@ == Seq::<char>::empty(),
            c.port == 0,
            (c.identity_file is None),
            c.extra_options@.len() == 0,
    {
        SSHConnection {
            name: String::new(),
            description: String::new(),
            hostname: String::new(),
            user: String::new(),
            port: 0,
            identity_file: Option::None,
            extra_options: Vec::new(),
        }
    }
}

/// The `-o` pairs for the extra options, flattened in order.
pub open spec fn option_args(opts: Seq<Seq<char>>) -> Seq<Seq<char>>
    decreases opts.len(),
{
    if opts.len() == 0 {
        Seq::empty()
    } else {
        option_args(opts.drop_last()) + seq![seq!['-', 'o'], opts.last()]
    }
}

/// The full argument list: a port flag when the port is explicit and not
/// the default, an identity flag when a key file is set, the extra
/// options, and finally `user@hostname`.
pub open spec fn spec_ssh_args(c: SSHConnection) -> Seq<Seq<char>> {
    (if c.port != 0 && c.port != 22 {
        seq![seq!['-', 'p'], dec_digits(c.port as int)]
    } else {
        Seq::<Seq<char>>::empty()
    }) + (match c.identity_file {
        Option::Some(key) => seq![seq!['-', 'i'], key@],
        Option::None => Seq::<Seq<char>>::empty(),
    }) + option_args(c.extra_options.deep_view()) + seq![c.user@ + seq!['@'] + c.hostname@]
}

impl SSHConnection {
    /// The arguments this connection passes to `ssh`.
    pub fn ssh_args(&self) -> (args: Vec<String>)
        ensures
            args.deep_view() == spec_ssh_args(*self),
    {
        let mut args: Vec<String> = Vec::new();
        if self.port != 0 && self.port != 22 {
            let mut flag = String::new();
            flag.push('-');
            flag.push('p');
            proof {
                assert(flag@ =~= seq!['-', 'p']);
            }
            args.push(flag);
            args.push(u64_to_string(self.port as u64));
        }
        match &self.identity_file {
            Option::Some(key) => {
                let mut flag = String::new();
                flag.push('-');
                flag.push('i');
                proof {
                    assert(flag@ =~= seq!['-', 'i']);
                }
                args.push(flag);
                args.push(key.clone());
            },
            Option::None => {},
        }
        let ghost base = args.deep_view();
        let ghost opts = self.extra_options.deep_view();
        let mut i: usize = 0;
        proof {
            assert(option_args(opts.take(0)) =~= Seq::<Seq<char>>::empty());
            assert(args.deep_view() =~= base + option_args(opts.take(0)));
        }
        while i < self.extra_options.len()
            invariant
                0 <= i <= self.extra_options@.len(),
                opts == self.extra_options.deep_view(),
                base.len() <= args.deep_view().len(),
                args.deep_view() == base + option_args(opts.take(i as int)),
            decreases self.extra_options@.len() - i,
        {
            let mut flag = String::new();
            flag.push('-');
            flag.push('o');
            proof {
                assert(flag@ =~= seq!['-', 'o']);
            }
            let ghost dv0 = args.deep_view();
            let ghost fv = flag@;
            args.push(flag);
            proof {
                assert(args.deep_view() =~= dv0.push(fv));
            }
            let opt = self.extra_options[i].clone();
            let ghost ov = opt@;
            args.push(opt);
            proof {
                assert(args.deep_view() =~= dv0.push(fv).push(ov));
                assert(opts.take(i + 1).drop_last() =~= opts.take(i as int));
                assert(opts.take(i + 1).last() == opts[i as int]);
                assert(ov == opts[i as int]);
                assert(args.deep_view() =~= base + option_args(opts.take(i + 1)));
            }
            i = i + 1;
        }
        proof {
            assert(opts.take(i as int) =~= opts);
        }
        let mut target = self.user.clone();
        target.push('@');
        target.append(self.hostname.as_str());
        proof {
            assert(target@ =~= self.user@ + seq!['@'] + self.hostname@);
        }
        let ghost before = args.deep_view();
        let ghost tv = target@;
        args.push(target);
        proof {
            assert(args.deep_view() =~= before.push(tv));
            assert(args.deep_view() =~= before + seq![self.user@ + seq!['@'] + self.hostname@]);
            assert(args.deep_view() =~= spec_ssh_args(*self));
        }
        args
    }
}

} // verus!
