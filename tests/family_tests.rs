use resonant::family::FractalFamily;
use resonant::gesture::Gesture;
use resonant::params::FamilyParams;

#[test]
fn family_mapping_first_six_seeds() {
    let expected = [
        FractalFamily::Mandelbulb,
        FractalFamily::Julia4D,
        FractalFamily::KaleidoIFS,
        FractalFamily::Mandelbulb,
        FractalFamily::Julia4D,
        FractalFamily::KaleidoIFS,
    ];
    for (seed, family) in expected.iter().enumerate() {
        assert_eq!(FractalFamily::from_seed(seed as u32), *family);
        assert_eq!(FamilyParams::from_seed(seed as u32).family(), *family);
    }
}

#[test]
fn family_names_and_ids() {
    assert_eq!(FractalFamily::Mandelbulb.name(), "Mandelbulb");
    assert_eq!(FractalFamily::Julia4D.name(), "Julia4D");
    assert_eq!(FractalFamily::KaleidoIFS.name(), "KaleidoIFS");
    assert_eq!(FractalFamily::Mandelbulb.gpu_id(), 0);
    assert_eq!(FractalFamily::Julia4D.gpu_id(), 1);
    assert_eq!(FractalFamily::KaleidoIFS.gpu_id(), 2);
}

#[test]
fn family_from_name_and_id() {
    assert_eq!(FractalFamily::from_name("Julia4D"), Some(FractalFamily::Julia4D));
    assert_eq!(FractalFamily::from_name("KaleidoIFS"), Some(FractalFamily::KaleidoIFS));
    assert_eq!(FractalFamily::from_name("Mandelbulb"), Some(FractalFamily::Mandelbulb));
    assert_eq!(FractalFamily::from_name("mandelbulb"), None);
    assert_eq!(FractalFamily::from_name(""), None);
    assert_eq!(FractalFamily::from_gpu_id(2), FractalFamily::KaleidoIFS);
    assert_eq!(FractalFamily::from_gpu_id(1), FractalFamily::Julia4D);
    assert_eq!(FractalFamily::from_gpu_id(7), FractalFamily::Mandelbulb);
}

#[test]
fn scenario_seed_123456() {
    // 123456 is divisible by 3, so the seed selects the Mandelbulb family.
    let p = FamilyParams::from_seed(123456);
    assert_eq!(p.family(), FractalFamily::Mandelbulb);
    assert_eq!(p, FamilyParams::Mandelbulb { power: 6, iterations: 8 });
    assert_eq!(p.loop_cap(), 8);
}

#[test]
fn params_julia() {
    // 123456790 % 3 == 1; c_seed = 1234567.
    let p = FamilyParams::from_seed(123456790);
    assert_eq!(
        p,
        FamilyParams::Julia4D { cx: 567, cy: 234, cz: 1, cw: 0, iterations: 8 + (123456790 / 13) % 6 }
    );
    assert_eq!(p.loop_cap(), 10);
}

#[test]
fn params_kaleido() {
    let p = FamilyParams::from_seed(5);
    assert_eq!(p, FamilyParams::KaleidoIFS { fold_count: 4, scale_step: 0 });
    let q = FamilyParams::from_seed(u32::MAX);
    // u32::MAX % 3 == 0.
    assert_eq!(q, FamilyParams::Mandelbulb { power: 6 + (u32::MAX / 3) % 8, iterations: 8 + (u32::MAX / 24) % 4 });
    let r = FamilyParams::from_seed(170);
    assert_eq!(r, FamilyParams::KaleidoIFS { fold_count: 4 + 24 % 8, scale_step: 0 });
}

#[test]
fn loop_caps_stay_small() {
    for seed in 0..2000u32 {
        let cap = FamilyParams::from_seed(seed).loop_cap();
        assert!(cap >= 4 && cap <= 13);
    }
}

#[test]
fn gestures_by_name() {
    assert_eq!(Gesture::from_name("swipe"), Some(Gesture::Swipe));
    assert_eq!(Gesture::from_name("pinch"), Some(Gesture::Pinch));
    assert_eq!(Gesture::from_name("tilt"), Some(Gesture::Tilt));
    assert_eq!(Gesture::from_name("smile"), Some(Gesture::Smile));
    assert_eq!(Gesture::from_name("wave"), None);
    assert_eq!(Gesture::Smile.name(), "smile");
}
