use hermit_alloc::lint::{Arch, Clippy, FeatureSet, Features, LintRun};

#[test]
fn lint_plan_covers_every_target_in_order() {
    let plan = Clippy.plan();
    let mut expected = Vec::new();
    for arch in [Arch::X86_64, Arch::Aarch64, Arch::Riscv64] {
        expected.push(LintRun::Kernel(arch, Features::Default));
        expected.push(LintRun::Kernel(arch, Features::NoDefault));
        expected.push(LintRun::Kernel(arch, Features::Selected(FeatureSet::Platform)));
        if arch == Arch::Riscv64 {
            expected.push(LintRun::Kernel(arch, Features::Selected(FeatureSet::Network)));
        }
    }
    expected.push(LintRun::Builtins);
    expected.push(LintRun::Xtask);
    assert_eq!(plan, expected);
    assert_eq!(plan.len(), 12);
}

#[test]
fn target_triples() {
    assert_eq!(Arch::X86_64.triple(), "x86_64-unknown-none");
    assert_eq!(Arch::Aarch64.triple(), "aarch64-unknown-none-softfloat");
    assert_eq!(Arch::Riscv64.triple(), "riscv64gc-unknown-none-elf");
}
