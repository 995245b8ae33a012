use vstd::prelude::*;

use crate::ai::ai_step;
use crate::animator::animator_step;
use crate::components::AnimationView;
use crate::dispatcher::{run_systems, system_step, SystemKind};
use crate::keyboard::keyboard_step;
use crate::movement::{movement_step, Movement};
use crate::resources::KeyboardEvent;
use crate::world::{maintain_step, EntityView};

verus! {

/// Stationary invariant.  An entity whose speed is zero is skipped entirely
/// by the movement system — its bounding box, and in fact the whole entity,
/// is untouched — and the animator removes its active animation, if it holds
/// one, within the same frame; one that is already animation-free is left
/// exactly as it is, so a standing entity never flickers.
pub proof fn lemma_stationary_entity(e: EntityView, micros: u64, now: u64)
    requires
        e.velocity is Some,
        e.velocity->0.speed == 0,
    ensures
        movement_step(e, micros) == e,
        e.alive && e.movement_animations is Some && e.animation is Some
            ==> animator_step(e, now).animation is None,
        e.animation is None ==> animator_step(e, now) == e,
{
}

/// The data-model invariant re-established every frame: after one animator
/// pass, an alive entity with both `Velocity` and `MovementAnimations`
/// carries an active animation exactly when it is moving, and a moving one's
/// animation is the current direction's template, by identity token.
pub proof fn lemma_animation_present_iff_moving(e: EntityView, now: u64)
    requires
        e.alive,
        e.velocity is Some,
        e.movement_animations is Some,
    ensures
        animator_step(e, now).animation is Some <==> e.velocity->0.speed != 0,
        e.velocity->0.speed != 0 ==> animator_step(e, now).animation->0.frames_token
            == e.movement_animations->0.spec_animation_for(
            e.velocity->0.direction,
        ).frames_token,
{
}

/// Animation identity switch.  While an entity keeps moving, an active
/// animation whose frame sequence is not the current direction's template —
/// by identity token — is replaced within one animator pass by a fresh copy
/// of that template: frame index back at zero even if the old animation had
/// advanced past it, frame timer at `now`, and the sprite already showing
/// frame 0 of the new direction's template.
pub proof fn lemma_direction_switch_resets_animation(e: EntityView, now: u64)
    requires
        e.alive,
        e.velocity is Some,
        e.velocity->0.speed != 0,
        e.movement_animations is Some,
        e.animation is Some,
        e.sprite is Some,
        e.animation->0.frames_token != e.movement_animations->0.spec_animation_for(
            e.velocity->0.direction,
        ).frames_token,
        e.movement_animations->0.spec_animation_for(e.velocity->0.direction).frames[0].duration
            > 0,
    ensures
        animator_step(e, now).animation == Some(
            AnimationView {
                frames_token: e.movement_animations->0.spec_animation_for(
                    e.velocity->0.direction,
                ).frames_token,
                frames: e.movement_animations->0.spec_animation_for(
                    e.velocity->0.direction,
                ).frames,
                current_frame: 0,
                frame_timer: now,
            },
        ),
        animator_step(e, now).sprite == Some(
            e.movement_animations->0.spec_animation_for(
                e.velocity->0.direction,
            ).frames[0].sprite,
        ),
{
}

/// Frame advance idempotence within a tick.  If the time elapsed since the
/// frame timer was last set is still under the current frame's duration, and
/// the active animation already matches the moving entity's direction, one
/// animator pass leaves the entity — frame index and sprite included —
/// exactly as it was.
pub proof fn lemma_frame_advance_idempotent(e: EntityView, now: u64)
    requires
        e.animation is Some,
        e.animation->0.frame_timer <= now,
        now - e.animation->0.frame_timer < e.animation->0.frames[
            e.animation->0.current_frame as int
        ].duration,
        e.alive && e.velocity is Some && e.movement_animations is Some ==> {
            &&& e.velocity->0.speed != 0
            &&& e.animation->0.frames_token == e.movement_animations->0.spec_animation_for(
                e.velocity->0.direction,
            ).frames_token
        },
    ensures
        animator_step(e, now) == e,
{
}

/// The keyboard and AI systems commute on any entity that is not both a
/// player and an enemy: each touches only its own marker's entities.
pub proof fn lemma_keyboard_ai_commute(
    e: EntityView,
    event: Option<KeyboardEvent>,
    draw: u8,
    now: u64,
)
    requires
        !(e.player is Some && e.enemy is Some),
    ensures
        ai_step(keyboard_step(e, event), draw, now) == keyboard_step(
            ai_step(e, draw, now),
            event,
        ),
{
    assert(ai_step(keyboard_step(e, event), draw, now) =~= keyboard_step(
        ai_step(e, draw, now),
        event,
    ));
}

/// The movement and animator systems commute on every entity: movement only
/// writes the bounding box, which the animator never reads, and the animator
/// only writes the animation and sprite, which movement never reads.
pub proof fn lemma_movement_animator_commute(e: EntityView, micros: u64, now: u64)
    ensures
        animator_step(movement_step(e, micros), now) == movement_step(
            animator_step(e, now),
            micros,
        ),
{
    assert(animator_step(movement_step(e, micros), now) =~= movement_step(
        animator_step(e, now),
        micros,
    ));
}

/// A four-system schedule is the four steps composed in order.
pub proof fn lemma_run_four(
    k1: SystemKind,
    k2: SystemKind,
    k3: SystemKind,
    k4: SystemKind,
    e: EntityView,
    event: Option<KeyboardEvent>,
    micros: u64,
    now: u64,
    draw: u8,
)
    ensures
        run_systems(seq![k1, k2, k3, k4], e, event, micros, now, seq![draw, draw, draw, draw])
            == system_step(
            k4,
            system_step(
                k3,
                system_step(
                    k2,
                    system_step(k1, e, event, micros, now, draw),
                    event,
                    micros,
                    now,
                    draw,
                ),
                event,
                micros,
                now,
                draw,
            ),
            event,
            micros,
            now,
            draw,
        ),
{
    let e1 = system_step(k1, e, event, micros, now, draw);
    let e2 = system_step(k2, e1, event, micros, now, draw);
    let e3 = system_step(k3, e2, event, micros, now, draw);
    assert(seq![k1, k2, k3, k4].drop_first() =~= seq![k2, k3, k4]);
    assert(seq![draw, draw, draw, draw].drop_first() =~= seq![draw, draw, draw]);
    assert(seq![k2, k3, k4].drop_first() =~= seq![k3, k4]);
    assert(seq![draw, draw, draw].drop_first() =~= seq![draw, draw]);
    assert(seq![k3, k4].drop_first() =~= seq![k4]);
    assert(seq![draw, draw].drop_first() =~= seq![draw]);
    assert(seq![k4].drop_first() =~= Seq::<SystemKind>::empty());
    assert(seq![draw].drop_first() =~= Seq::<u8>::empty());
    assert(run_systems(seq![k1, k2, k3, k4], e, event, micros, now, seq![draw, draw, draw, draw])
        == run_systems(seq![k2, k3, k4], e1, event, micros, now, seq![draw, draw, draw]));
    assert(run_systems(seq![k2, k3, k4], e1, event, micros, now, seq![draw, draw, draw])
        == run_systems(seq![k3, k4], e2, event, micros, now, seq![draw, draw]));
    assert(run_systems(seq![k3, k4], e2, event, micros, now, seq![draw, draw]) == run_systems(
        seq![k4],
        e3,
        event,
        micros,
        now,
        seq![draw],
    ));
    let e4 = system_step(k4, e3, event, micros, now, draw);
    assert(run_systems(Seq::<SystemKind>::empty(), e4, event, micros, now, Seq::<u8>::empty())
        == e4);
    assert(seq![k4].first() == k4);
    assert(seq![draw].first() == draw);
    assert(run_systems(seq![k4], e3, event, micros, now, seq![draw]) == e4);
}

/// Scheduler ordering.  For the declared graph — keyboard and AI before
/// movement, keyboard and AI before the animator — every schedule that
/// respects the edges produces, for the same draw, exactly the world of the
/// canonical order keyboard, AI, movement, animator, provided no entity is
/// both a player and an enemy.
pub proof fn lemma_schedule_order_immaterial(
    mv: Movement,
    e: EntityView,
    event: Option<KeyboardEvent>,
    micros: u64,
    now: u64,
    draw: u8,
)
    requires
        !(e.player is Some && e.enemy is Some),
    ensures
        ({
            let canonical = animator_step(
                movement_step(ai_step(keyboard_step(e, event), draw, now), micros),
                now,
            );
            &&& run_systems(
                seq![SystemKind::Keyboard, SystemKind::Ai, SystemKind::Movement(mv), SystemKind::Animator],
                e, event, micros, now, seq![draw, draw, draw, draw],
            ) == canonical
            &&& run_systems(
                seq![SystemKind::Ai, SystemKind::Keyboard, SystemKind::Movement(mv), SystemKind::Animator],
                e, event, micros, now, seq![draw, draw, draw, draw],
            ) == canonical
            &&& run_systems(
                seq![SystemKind::Keyboard, SystemKind::Ai, SystemKind::Animator, SystemKind::Movement(mv)],
                e, event, micros, now, seq![draw, draw, draw, draw],
            ) == canonical
            &&& run_systems(
                seq![SystemKind::Ai, SystemKind::Keyboard, SystemKind::Animator, SystemKind::Movement(mv)],
                e, event, micros, now, seq![draw, draw, draw, draw],
            ) == canonical
        }),
{
    lemma_run_four(
        SystemKind::Keyboard, SystemKind::Ai, SystemKind::Movement(mv), SystemKind::Animator,
        e, event, micros, now, draw,
    );
    lemma_run_four(
        SystemKind::Ai, SystemKind::Keyboard, SystemKind::Movement(mv), SystemKind::Animator,
        e, event, micros, now, draw,
    );
    lemma_run_four(
        SystemKind::Keyboard, SystemKind::Ai, SystemKind::Animator, SystemKind::Movement(mv),
        e, event, micros, now, draw,
    );
    lemma_run_four(
        SystemKind::Ai, SystemKind::Keyboard, SystemKind::Animator, SystemKind::Movement(mv),
        e, event, micros, now, draw,
    );
    lemma_keyboard_ai_commute(e, event, draw, now);
    let kb_ai = ai_step(keyboard_step(e, event), draw, now);
    lemma_movement_animator_commute(kb_ai, micros, now);
}

/// Deferred destruction.  Marking an entity for destruction changes nothing
/// a system can observe: every system computes the same components for the
/// marked entity as for the unmarked one, with only the mark carried along.
/// At the maintenance point the marked entity is purged wholesale.
pub proof fn lemma_destruction_deferred(
    kind: SystemKind,
    e: EntityView,
    event: Option<KeyboardEvent>,
    micros: u64,
    now: u64,
    draw: u8,
)
    ensures
        system_step(kind, EntityView { doomed: true, ..e }, event, micros, now, draw)
            == (EntityView { doomed: true, ..system_step(kind, e, event, micros, now, draw) }),
        maintain_step(EntityView { doomed: true, ..e }) == EntityView::purged(),
{
    assert(system_step(kind, EntityView { doomed: true, ..e }, event, micros, now, draw)
        =~= (EntityView { doomed: true, ..system_step(kind, e, event, micros, now, draw) }));
}

} // verus!
