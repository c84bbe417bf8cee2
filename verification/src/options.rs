//! Launch-time configuration for a mirroring process, and the argument
//! vector it turns into.

use vstd::prelude::*;
use vstd::string::StringExecFns;

use crate::strutil::{dec_str, u64_to_string};

verus! {

/// Options applied when a mirroring process is launched.  Every field is
/// optional or defaulted; the value has no lifecycle beyond the launch call.
#[derive(Clone, Copy, Debug, PartialEq, Eq)]
pub struct ScrcpyOptions {
    pub max_size: Option<u32>,
    pub bit_rate: Option<u32>,
    pub max_fps: Option<u32>,
    pub always_on_top: bool,
    pub stay_awake: bool,
    pub turn_screen_off: bool,
}

impl Default for ScrcpyOptions {
    /// Documented defaults: a resolution cap of 1920, a bit rate of 8 Mbps,
    /// a frame-rate cap of 60, stay-awake on, the rest off.
    fn default() -> (r: Self)
        ensures
            r.max_size == Some(1920u32),
            r.bit_rate == Some(8000000u32),
            r.max_fps == Some(60u32),
            r.always_on_top == false,
            r.stay_awake == true,
            r.turn_screen_off == false,
    {
        ScrcpyOptions {
            max_size: Some(1920),
            bit_rate: Some(8000000),
            max_fps: Some(60),
            always_on_top: false,
            stay_awake: true,
            turn_screen_off: false,
        }
    }
}

/// The argument vector a launch with these options passes to the mirroring
/// binary: `-s <target>` when a target is given, then one flag per populated
/// option.
pub open spec fn args_of(device_id: Option<Seq<char>>, o: ScrcpyOptions) -> Seq<Seq<char>> {
    (match device_id {
        Some(d) => seq!["-s"@, d],
        None => Seq::<Seq<char>>::empty(),
    }) + (match o.max_size {
        Some(n) => seq!["--max-size"@, dec_str(n as nat)],
        None => Seq::<Seq<char>>::empty(),
    }) + (match o.bit_rate {
        Some(n) => seq!["--bit-rate"@, dec_str(n as nat)],
        None => Seq::<Seq<char>>::empty(),
    }) + (match o.max_fps {
        Some(n) => seq!["--max-fps"@, dec_str(n as nat)],
        None => Seq::<Seq<char>>::empty(),
    }) + (if o.always_on_top {
        seq!["--always-on-top"@]
    } else {
        Seq::<Seq<char>>::empty()
    }) + (if o.stay_awake {
        seq!["--stay-awake"@]
    } else {
        Seq::<Seq<char>>::empty()
    }) + (if o.turn_screen_off {
        seq!["--turn-screen-off"@]
    } else {
        Seq::<Seq<char>>::empty()
    })
}

/// Builds the exact argument vector for one launch.  The caller hands this
/// vector, unchanged, to the OS spawn call.
#[verifier::rlimit(60)]
pub fn build_scrcpy_args(device_id: Option<&str>, options: &ScrcpyOptions) -> (r: Vec<String>)
    ensures
        r.deep_view() == args_of(
            match device_id {
                Some(d) => Some(d@),
                None => None,
            },
            *options,
        ),
{
    let ghost dev: Option<Seq<char>> = match device_id {
        Some(d) => Some(d@),
        None => None,
    };
    let mut args: Vec<String> = Vec::new();
    if let Some(id) = device_id {
        args.push(String::from_str("-s"));
        args.push(id.to_owned());
    }
    let ghost part1 = (match dev {
        Some(d) => seq!["-s"@, d],
        None => Seq::<Seq<char>>::empty(),
    });
    assert(args.deep_view() =~= part1);
    if let Some(n) = options.max_size {
        args.push(String::from_str("--max-size"));
        args.push(u64_to_string(n as u64));
    }
    let ghost part2 = part1 + (match options.max_size {
        Some(n) => seq!["--max-size"@, dec_str(n as nat)],
        None => Seq::<Seq<char>>::empty(),
    });
    assert(args.deep_view() =~= part2);
    if let Some(n) = options.bit_rate {
        args.push(String::from_str("--bit-rate"));
        args.push(u64_to_string(n as u64));
    }
    let ghost part3 = part2 + (match options.bit_rate {
        Some(n) => seq!["--bit-rate"@, dec_str(n as nat)],
        None => Seq::<Seq<char>>::empty(),
    });
    assert(args.deep_view() =~= part3);
    if let Some(n) = options.max_fps {
        args.push(String::from_str("--max-fps"));
        args.push(u64_to_string(n as u64));
    }
    let ghost part4 = part3 + (match options.max_fps {
        Some(n) => seq!["--max-fps"@, dec_str(n as nat)],
        None => Seq::<Seq<char>>::empty(),
    });
    assert(args.deep_view() =~= part4);
    if options.always_on_top {
        args.push(String::from_str("--always-on-top"));
    }
    let ghost part5 = part4 + (if options.always_on_top {
        seq!["--always-on-top"@]
    } else {
        Seq::<Seq<char>>::empty()
    });
    assert(args.deep_view() =~= part5);
    if options.stay_awake {
        args.push(String::from_str("--stay-awake"));
    }
    let ghost part6 = part5 + (if options.stay_awake {
        seq!["--stay-awake"@]
    } else {
        Seq::<Seq<char>>::empty()
    });
    assert(args.deep_view() =~= part6);
    if options.turn_screen_off {
        args.push(String::from_str("--turn-screen-off"));
    }
    let ghost part7 = part6 + (if options.turn_screen_off {
        seq!["--turn-screen-off"@]
    } else {
        Seq::<Seq<char>>::empty()
    });
    assert(args.deep_view() =~= part7);
    assert(args.deep_view() =~= args_of(dev, *options));
    args
}

} // verus!
