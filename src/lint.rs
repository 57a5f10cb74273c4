//! Which clippy runs the repository's lint task makes, in order. Running
//! them is left to the caller.
use vstd::prelude::*;

verus! {

/// A target architecture of the kernel.
#[derive(Clone, Copy, Debug, PartialEq, Eq, Structural)]
pub enum Arch {
    X86_64,
    Aarch64,
    Riscv64,
}

pub open spec fn arch_triple(arch: Arch) -> Seq<char> {
    match arch {
        Arch::X86_64 => "x86_64-unknown-none"@,
        Arch::Aarch64 => "aarch64-unknown-none-softfloat"@,
        Arch::Riscv64 => "riscv64gc-unknown-none-elf"@,
    }
}

impl Arch {
    /// The target triple the kernel is built for on this architecture.
    pub fn triple(&self) -> (r: &'static str)
        ensures
            r@ == arch_triple(*self),
    {
        match self {
            Arch::X86_64 => "x86_64-unknown-none",
            Arch::Aarch64 => "aarch64-unknown-none-softfloat",
            Arch::Riscv64 => "riscv64gc-unknown-none-elf",
        }
    }
}

/// A set of kernel features enabled on top of `--no-default-features`.
#[derive(Clone, Copy, Debug, PartialEq, Eq, Structural)]
pub enum FeatureSet {
    /// `acpi,fsgsbase,pci,smp,vga`
    Platform,
    /// `gem-net,tcp`
    Network,
}

/// The features a kernel lint run is made with.
#[derive(Clone, Copy, Debug, PartialEq, Eq, Structural)]
pub enum Features {
    /// The default features.
    Default,
    /// `--no-default-features` and nothing else.
    NoDefault,
    /// `--no-default-features` with the given set.
    Selected(FeatureSet),
}

/// One clippy run.
#[derive(Clone, Copy, Debug, PartialEq, Eq, Structural)]
pub enum LintRun {
    /// The kernel, for an architecture, with a choice of features.
    Kernel(Arch, Features),
    /// The builtins crate, for `x86_64-unknown-none`.
    Builtins,
    /// The task runner itself.
    Xtask,
}

/// The kernel runs made for one architecture: default features, no
/// features, the platform set, and on RISC-V the network set as well.
pub open spec fn kernel_runs(arch: Arch) -> Seq<LintRun> {
    let common = seq![
        LintRun::Kernel(arch, Features::Default),
        LintRun::Kernel(arch, Features::NoDefault),
        LintRun::Kernel(arch, Features::Selected(FeatureSet::Platform)),
    ];
    if arch == Arch::Riscv64 {
        common.push(LintRun::Kernel(arch, Features::Selected(FeatureSet::Network)))
    } else {
        common
    }
}

/// Every run, in order: the kernel runs for x86-64, AArch64 and RISC-V,
/// then the builtins crate, then the task runner.
pub open spec fn lint_plan() -> Seq<LintRun> {
    kernel_runs(Arch::X86_64) + kernel_runs(Arch::Aarch64) + kernel_runs(Arch::Riscv64) + seq![
        LintRun::Builtins,
        LintRun::Xtask,
    ]
}

/// The lint task: clippy over all targets.
#[derive(Clone, Copy, Debug, PartialEq, Eq, Structural)]
pub struct Clippy;

impl Clippy {
    /// The architectures linted, in order.
    pub fn targets(&self) -> (r: Vec<Arch>)
        ensures
            r@ == seq![Arch::X86_64, Arch::Aarch64, Arch::Riscv64],
    {
        vec![Arch::X86_64, Arch::Aarch64, Arch::Riscv64]
    }

    /// The runs made for `arch`.
    pub fn kernel_runs(&self, arch: Arch) -> (r: Vec<LintRun>)
        ensures
            r@ == kernel_runs(arch),
    {
        let mut runs = vec![
            LintRun::Kernel(arch, Features::Default),
            LintRun::Kernel(arch, Features::NoDefault),
            LintRun::Kernel(arch, Features::Selected(FeatureSet::Platform)),
        ];
        if arch == Arch::Riscv64 {
            runs.push(LintRun::Kernel(arch, Features::Selected(FeatureSet::Network)));
        }
        assert(runs@ =~= kernel_runs(arch));
        runs
    }

    /// Every run the task makes, in order.
    pub fn plan(&self) -> (r: Vec<LintRun>)
        ensures
            r@ == lint_plan(),
    {
        let targets = self.targets();
        let mut plan: Vec<LintRun> = Vec::new();
        let mut i: usize = 0;
        while i < targets.len()
            invariant
                i <= targets@.len(),
                targets@ == seq![Arch::X86_64, Arch::Aarch64, Arch::Riscv64],
                plan@ == (if i == 0 {
                    Seq::<LintRun>::empty()
                } else if i == 1 {
                    kernel_runs(Arch::X86_64)
                } else if i == 2 {
                    kernel_runs(Arch::X86_64) + kernel_runs(Arch::Aarch64)
                } else {
                    kernel_runs(Arch::X86_64) + kernel_runs(Arch::Aarch64) + kernel_runs(
                        Arch::Riscv64,
                    )
                }),
            decreases targets@.len() - i,
        {
            let mut runs = self.kernel_runs(targets[i]);
            plan.append(&mut runs);
            i = i + 1;
        }
        plan.push(LintRun::Builtins);
        plan.push(LintRun::Xtask);
        assert(plan@ =~= lint_plan());
        plan
    }
}

} // verus!
