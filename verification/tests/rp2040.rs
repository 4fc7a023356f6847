//! Builds and flashes for the RP2040.

use spire_build::project::{Entry, ProjectTree};
use spire_build::rp2040::{
    rp2040_chip, rp2040_flash_command, rp2040_flash_decision, rp2040_flash_tool, rp2040_plan, rp2040_platform_id,
    rp2040_platform_plan, spec_from_target, target_available_in_sysroot, target_installed_in, Platform,
    PlatformArchitecture, PlatformRust, Rp2040BuildModule, RP2040_OS, RP2040_TARGET,
};
use spire_build::types::BuildOptions;

/// An RP2040 platform, or one with the fields under test blanked.
fn platform(os: &str, triple: &str, flash: Option<&str>) -> Platform {
    Platform {
        id: "rp2040".into(),
        os: os.into(),
        architecture: PlatformArchitecture { cpu: "rp2040".into() },
        rust: Some(PlatformRust {
            target: triple.to_string(),
            idf_target: Some("RP2040".to_string()),
            flash: flash.map(str::to_string),
        }),
    }
}

fn opts(platform_id: Option<&str>, mode: &str) -> BuildOptions {
    BuildOptions {
        mode: mode.to_string(),
        platform: platform_id.map(str::to_string),
        ..Default::default()
    }
}

fn pico() -> Platform {
    platform(RP2040_OS, RP2040_TARGET, Some("picotool"))
}

/// A sysroot with these directories.
fn sysroot(dirs: &[&str]) -> ProjectTree {
    let mut t = ProjectTree { root: "/rust".to_string(), entries: Vec::new() };
    for path in dirs {
        let mut dir = String::new();
        for part in path.split('/') {
            if !dir.is_empty() {
                dir.push('/');
            }
            dir.push_str(part);
            if !t.entries.iter().any(|e| e.path == dir) {
                t.entries.push(Entry { path: dir.clone(), is_dir: true, content: None });
            }
        }
    }
    t
}

#[test]
fn the_plan_is_a_cargo_build_for_the_platforms_target() {
    let plan = rp2040_plan(&pico(), &opts(Some("rp2040"), "release")).expect("a plan");
    assert_eq!(plan.args, vec!["build", "--target", RP2040_TARGET, "--release"], "{plan:?}");
    assert_eq!(plan.target, RP2040_TARGET);
    assert_eq!(plan.chip, "RP2040");
    assert!(plan.env.is_empty(), "{plan:?}");
    assert!(!plan.args.iter().any(|arg| arg.contains("build-std")), "{plan:?}");
}

#[test]
fn only_an_rp2040_platform_gets_a_plan() {
    for other in ["linux", "esp-idf", "none"] {
        assert!(
            rp2040_plan(&platform(other, "aarch64-unknown-linux-gnu", None), &opts(None, "")).is_none(),
            "os '{other}' must not be planned by this module"
        );
    }
    assert!(rp2040_plan(&platform(RP2040_OS, "", None), &opts(None, "")).is_none());
    let no_rust = Platform { rust: None, ..pico() };
    assert!(rp2040_plan(&no_rust, &opts(None, "")).is_none());
}

#[test]
fn the_package_reaches_cargo() {
    let mut options = opts(Some("rp2040"), "");
    options.package = Some("blink-rp2040".to_string());
    let plan = rp2040_plan(&pico(), &options).expect("a plan");
    assert_eq!(plan.args, vec!["build", "--target", RP2040_TARGET, "-p", "blink-rp2040"]);
}

#[test]
fn each_flash_tool_gets_its_own_command() {
    let artifact = "/tmp/target/thumbv6m-none-eabi/release/blink";

    let picotool = rp2040_flash_command(
        &platform(RP2040_OS, RP2040_TARGET, Some("picotool")),
        artifact,
        None,
    )
    .expect("picotool is known");
    assert_eq!(picotool, vec!["picotool", "load", "-x", artifact]);

    let probe = rp2040_flash_command(
        &platform(RP2040_OS, RP2040_TARGET, Some("probe-rs")),
        artifact,
        Some("0d28:0204"),
    )
    .expect("probe-rs is known");
    assert_eq!(
        probe,
        vec!["probe-rs", "run", "--chip", "RP2040", "--probe", "0d28:0204", artifact]
    );

    let uf2 = rp2040_flash_command(
        &platform(RP2040_OS, RP2040_TARGET, Some("elf2uf2-rs")),
        artifact,
        None,
    )
    .expect("elf2uf2-rs is known");
    assert_eq!(uf2, vec!["elf2uf2-rs", "-d", artifact]);

    let uf2_at = rp2040_flash_command(
        &platform(RP2040_OS, RP2040_TARGET, Some("elf2uf2")),
        artifact,
        Some("/Volumes/RPI-RP2"),
    )
    .expect("the short alias is known too");
    assert_eq!(uf2_at, vec!["elf2uf2-rs", artifact, "/Volumes/RPI-RP2/blink.uf2"]);
}

#[test]
fn an_unknown_flash_tool_is_refused_rather_than_run() {
    let artifact = "/tmp/blink";
    for flash in [None, Some("openocd"), Some("espflash")] {
        assert!(
            rp2040_flash_command(&platform(RP2040_OS, RP2040_TARGET, flash), artifact, None).is_none(),
            "flash={flash:?} must not produce a command"
        );
    }
}

#[test]
fn a_missing_target_is_refused_with_the_reason_it_is_missing() {
    let plan = rp2040_plan(&pico(), &opts(Some("rp2040"), "")).expect("a plan");
    let root = sysroot(&["lib/rustlib/aarch64-apple-darwin/lib"]);

    let err = spec_from_target(plan.clone(), Some(&root), Some("aarch64-apple-darwin\n"))
        .expect_err("the target is missing from that list");
    assert!(err.contains(RP2040_TARGET), "{err}");
    assert!(err.contains("rustup target add"), "{err}");

    let err = spec_from_target(
        plan.clone(),
        Some(&root),
        Some("aarch64-apple-darwin\nthumbv6m-none-eabi\n"),
    )
    .expect_err("rustup knowing about it does not make this toolchain have it");
    assert!(err.contains("not rustup's"), "{err}");
    assert!(!err.contains("run `rustup target add"), "{err}");

    let root = sysroot(&[
        "lib/rustlib/aarch64-apple-darwin/lib",
        "lib/rustlib/thumbv6m-none-eabi/lib",
    ]);
    let spec = spec_from_target(plan, Some(&root), Some("")).expect("the target is installed");
    assert_eq!(spec.command, "cargo");
    assert_eq!(spec.arguments, vec!["build", "--target", RP2040_TARGET]);
    assert_eq!(
        spec.env,
        vec![("DYLD_FALLBACK_LIBRARY_PATH".to_string(), "/rust/lib".to_string())],
        "{spec:?}"
    );
}

#[test]
fn an_unanswerable_toolchain_does_not_block_the_build() {
    let plan = rp2040_plan(&pico(), &opts(Some("rp2040"), "")).expect("a plan");
    assert!(spec_from_target(plan, None, None).is_ok());
}

#[test]
fn the_target_is_looked_for_where_the_toolchain_keeps_it() {
    assert!(!target_available_in_sysroot(&sysroot(&[]), RP2040_TARGET));
    let full = sysroot(&["lib/rustlib/thumbv6m-none-eabi/lib"]);
    assert!(target_available_in_sysroot(&full, RP2040_TARGET));
    let bare = sysroot(&["lib/rustlib/thumbv6m-none-eabi"]);
    assert!(!target_available_in_sysroot(&bare, RP2040_TARGET));

    assert!(target_installed_in("thumbv6m-none-eabi\n", RP2040_TARGET));
    assert!(target_installed_in("  thumbv6m-none-eabi  \n", RP2040_TARGET));
    assert!(!target_installed_in("thumbv6m-none-eabihf\n", RP2040_TARGET));
    assert!(!target_installed_in("", RP2040_TARGET));
}

#[test]
fn the_chip_is_the_vendors_spelling_or_the_processor() {
    assert_eq!(rp2040_chip(&pico()), Some("RP2040".to_string()));
    let mut p = pico();
    p.rust = None;
    assert_eq!(rp2040_chip(&p), Some("rp2040".to_string()));
    p.architecture.cpu = "  ".to_string();
    assert_eq!(rp2040_chip(&p), None);
    assert_eq!(rp2040_chip(&platform("linux", RP2040_TARGET, None)), None);
    assert_eq!(rp2040_flash_tool(&pico()), Some("picotool"));
    assert_eq!(rp2040_flash_tool(&platform(RP2040_OS, RP2040_TARGET, Some(" "))), None);
}

#[test]
fn a_platform_has_to_be_asked_for_and_known() {
    assert_eq!(
        rp2040_platform_id("build", &opts(None, "")),
        Err("an rp2040 build needs a platform, e.g. \"rp2040\"".to_string())
    );
    assert_eq!(rp2040_platform_id("flash", &opts(Some(" pico "), "")), Ok("pico".to_string()));
    assert_eq!(
        rp2040_platform_plan("pico", &None, &opts(None, "")),
        Err("unknown platform 'pico'".to_string())
    );
    let linux = platform("linux", "x86_64-unknown-linux-gnu", None);
    assert_eq!(
        rp2040_platform_plan("rpi5", &Some(linux), &opts(None, "")),
        Err("platform 'rpi5' is not an rp2040 platform with a rust.target".to_string())
    );
    assert!(rp2040_platform_plan("pico", &Some(pico()), &opts(None, "")).is_ok());
}

#[test]
fn a_flash_is_refused_before_any_tool_runs() {
    let refused = |p: &Platform, a: Option<&str>, there: bool| {
        rp2040_flash_decision(p, a, there, None).unwrap_err()
    };
    let bare = platform(RP2040_OS, RP2040_TARGET, None);
    assert_eq!(
        refused(&bare, Some("a"), true),
        "platform 'rp2040' declares no flash tool (rust.flash), so nothing can flash it"
    );
    assert!(refused(&pico(), None, false).starts_with("cannot tell which binary to flash"));
    assert_eq!(
        refused(&pico(), Some("t/blink"), false),
        "no artifact at t/blink; build for 'rp2040' first, or pass artifact=<path> / mode=<profile>"
    );
    let odd = platform(RP2040_OS, RP2040_TARGET, Some("openocd"));
    assert_eq!(
        refused(&odd, Some("t/blink"), true),
        "platform 'rp2040' names a flash tool this module does not know ('openocd'): use picotool, probe-rs or elf2uf2-rs"
    );
    assert_eq!(
        rp2040_flash_decision(&pico(), Some("t/blink"), true, None),
        Ok(vec!["picotool".to_string(), "load".to_string(), "-x".to_string(), "t/blink".to_string()])
    );
}

#[test]
fn the_module_flashes_and_claims_no_file() {
    let cap = Rp2040BuildModule::new().describe_capabilities();
    assert_eq!(cap.name, "rp2040");
    assert!(cap.config_files.is_empty());
    assert!(cap.supports_flash);
    assert!(!cap.supports_clean);
}
