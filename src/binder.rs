use vstd::prelude::*;

verus! {

/// One requirement on the framebuffer configuration of the graphics display.
#[derive(Debug, Clone, Copy, PartialEq, Eq, Structural)]
pub enum ConfigRequirement {
    /// The configuration can back a window surface.
    WindowDrawable,
    /// The configuration renders with the client API of version 2.
    Es2Renderable,
    /// At least this many bits of red.
    RedBits(i32),
    /// At least this many bits of green.
    GreenBits(i32),
    /// At least this many bits of blue.
    BlueBits(i32),
    /// At least this many bits of alpha.
    AlphaBits(i32),
}

/// The bits each colour channel needs at least.
pub const CHANNEL_BITS: i32 = 8;

/// The client API version the rendering context asks for.
pub const CLIENT_VERSION: i32 = 2;

/// The requirements a configuration must meet, with or without an alpha channel;
/// the first configuration that meets them is taken.
pub open spec fn config_spec(with_alpha: bool) -> Seq<ConfigRequirement> {
    let base = seq![
        ConfigRequirement::WindowDrawable,
        ConfigRequirement::Es2Renderable,
        ConfigRequirement::RedBits(CHANNEL_BITS),
        ConfigRequirement::GreenBits(CHANNEL_BITS),
        ConfigRequirement::BlueBits(CHANNEL_BITS),
    ];
    if with_alpha {
        base.push(ConfigRequirement::AlphaBits(CHANNEL_BITS))
    } else {
        base
    }
}

/// The requirements to hand to the configuration search, in order.
pub fn config_requirements(with_alpha: bool) -> (r: Vec<ConfigRequirement>)
    ensures
        r@ == config_spec(with_alpha),
{
    let mut r: Vec<ConfigRequirement> = Vec::new();
    r.push(ConfigRequirement::WindowDrawable);
    r.push(ConfigRequirement::Es2Renderable);
    r.push(ConfigRequirement::RedBits(CHANNEL_BITS));
    r.push(ConfigRequirement::GreenBits(CHANNEL_BITS));
    r.push(ConfigRequirement::BlueBits(CHANNEL_BITS));
    if with_alpha {
        r.push(ConfigRequirement::AlphaBits(CHANNEL_BITS));
    }
    assert(r@ =~= config_spec(with_alpha));
    r
}

/// One step of the shutdown.
#[derive(Debug, Clone, Copy, PartialEq, Eq, Structural)]
pub enum TeardownStep {
    DeleteProgram,
    DestroyDrawingSurface,
    DestroyContext,
    DestroyShellSurface,
    DestroyCompositingSurface,
}

/// The shutdown releases resources in the reverse order of their creation.
/// Without a bound graphics context only the surfaces are released.
pub open spec fn teardown_spec(bound: bool) -> Seq<TeardownStep> {
    if bound {
        seq![
            TeardownStep::DeleteProgram,
            TeardownStep::DestroyDrawingSurface,
            TeardownStep::DestroyContext,
            TeardownStep::DestroyShellSurface,
            TeardownStep::DestroyCompositingSurface,
        ]
    } else {
        seq![TeardownStep::DestroyShellSurface, TeardownStep::DestroyCompositingSurface]
    }
}

/// The shutdown steps, in the order they are performed.
pub fn teardown_order(bound: bool) -> (r: Vec<TeardownStep>)
    ensures
        r@ == teardown_spec(bound),
{
    let mut r: Vec<TeardownStep> = Vec::new();
    if bound {
        r.push(TeardownStep::DeleteProgram);
        r.push(TeardownStep::DestroyDrawingSurface);
        r.push(TeardownStep::DestroyContext);
    }
    r.push(TeardownStep::DestroyShellSurface);
    r.push(TeardownStep::DestroyCompositingSurface);
    assert(r@ =~= teardown_spec(bound));
    r
}

/// The first of `steps` whose entry in `failed` is set, if any.
pub open spec fn first_failed(steps: Seq<TeardownStep>, failed: Seq<bool>) -> Option<TeardownStep>
    decreases failed.len(),
{
    if failed.len() == 0 || steps.len() == 0 {
        None
    } else if failed[0] {
        Some(steps[0])
    } else {
        first_failed(steps.drop_first(), failed.drop_first())
    }
}

/// The outcome of a shutdown in which every step was attempted: `failed[i]`
/// tells whether `steps[i]` failed. The shutdown is reported failed, with its
/// first failed step, when any step failed.
pub fn teardown_result(steps: &Vec<TeardownStep>, failed: &Vec<bool>) -> (r: Result<
    (),
    TeardownStep,
>)
    requires
        failed@.len() == steps@.len(),
    ensures
        r == (match first_failed(steps@, failed@) {
            None => Ok(()),
            Some(st) => Err(st),
        }),
        r is Ok <==> forall|i: int| 0 <= i < failed@.len() ==> !failed@[i],
{
    let mut i: usize = 0;
    assert(steps@.subrange(0, steps@.len() as int) =~= steps@);
    assert(failed@.subrange(0, failed@.len() as int) =~= failed@);
    while i < failed.len()
        invariant
            failed@.len() == steps@.len(),
            0 <= i <= failed@.len(),
            first_failed(steps@, failed@) == first_failed(
                steps@.subrange(i as int, steps@.len() as int),
                failed@.subrange(i as int, failed@.len() as int),
            ),
            forall|j: int| 0 <= j < i ==> !failed@[j],
        decreases failed@.len() - i,
    {
        let ghost rest_s = steps@.subrange(i as int, steps@.len() as int);
        let ghost rest_f = failed@.subrange(i as int, failed@.len() as int);
        if failed[i] {
            return Err(steps[i]);
        }
        assert(rest_s.drop_first() =~= steps@.subrange(i + 1, steps@.len() as int));
        assert(rest_f.drop_first() =~= failed@.subrange(i + 1, failed@.len() as int));
        i = i + 1;
    }
    Ok(())
}

/// A shutdown in which no step failed reports no failure.
pub proof fn lemma_no_failure_is_clean(steps: Seq<TeardownStep>, failed: Seq<bool>)
    requires
        forall|i: int| 0 <= i < failed.len() ==> !failed[i],
    ensures
        first_failed(steps, failed) is None,
    decreases failed.len(),
{
    if failed.len() > 0 && steps.len() > 0 {
        lemma_no_failure_is_clean(steps.drop_first(), failed.drop_first());
    }
}

} // verus!
