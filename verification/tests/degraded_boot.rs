//! How a boot goes on without a boot environment.

use omnect_os_init::bootloader::{classify_boot_env, BootEnvDecision, BootEnvState, MockBootEnv};
use omnect_os_init::error::{BootEnvError, InitramfsError};

fn make_ok() -> Result<MockBootEnv, BootEnvError> {
    Ok(MockBootEnv::new())
}

fn make_err() -> Result<MockBootEnv, BootEnvError> {
    Err(BootEnvError::CommandFailed {
        command: "grub-editenv".into(),
        reason: "test error".into(),
    })
}

#[test]
fn ok_result_is_not_degraded_regardless_of_image_type() {
    for is_release in [true, false] {
        let decision = classify_boot_env(make_ok(), is_release);
        assert!(
            matches!(
                decision,
                BootEnvDecision::Continue(BootEnvState::Available(_))
            ),
            "is_release={is_release}: expected Available/not-degraded"
        );
    }
}

#[test]
fn err_release_image_is_degraded_continue() {
    let decision = classify_boot_env(make_err(), true);
    match decision {
        BootEnvDecision::Continue(ref env) => {
            assert!(env.is_degraded(), "release-image: expected Degraded env");
        }
        _ => panic!("release-image: expected Continue(Degraded)"),
    }
}

#[test]
fn err_debug_image_is_abort_with_cause() {
    let decision = classify_boot_env(make_err(), false);
    match decision {
        BootEnvDecision::Abort(InitramfsError::DegradedBoot(ref cause)) => {
            assert!(
                matches!(
                    cause,
                    BootEnvError::CommandFailed {
                        command,
                        ..
                    } if command == "grub-editenv"
                ),
                "expected cause CommandFailed(grub-editenv), got: {cause:?}"
            );
        }
        _ => panic!("debug-image: expected Abort(DegradedBoot), got unexpected decision"),
    }
}
