//! What the templates of the configuration files are made of, and that each answer
//! comes to stand where its slot is.

use vstd::prelude::*;

use crate::config::{
    configuration_slots, flake_slots, home_slots, AnswersView, CONFIGURATION_TEMPLATE,
    FLAKE_TEMPLATE, HOME_TEMPLATE,
};
use crate::survey::{answers_of, fits, questions};
use crate::template::{
    begins, filled, filled_at_once, law_every_slot_gets_its_value, legible, orderly, proper,
    stands_alone, starts_with_slot, SlotView,
};
use crate::text::occurs_at;

verus! {

/// Whether no answer holds an opening brace.
pub open spec fn without_braces(a: AnswersView) -> bool {
    &&& !a.system_name.contains('{')
    &&& !a.user.contains('{')
    &&& !a.full_name.contains('{')
    &&& !a.email.contains('{')
    &&& !a.wm.contains('{')
    &&& !a.terminal.contains('{')
    &&& !a.dm.contains('{')
    &&& !a.launcher.contains('{')
    &&& !a.browser.contains('{')
    &&& !a.shell.contains('{')
    &&& !a.editor.contains('{')
    &&& !a.wallpaper.contains('{')
    &&& !a.theme.contains('{')
}

/// Whether a slot is a name between braces that starts with these two letters.
spec fn named(slot: Seq<char>, first: char, second: char) -> bool {
    proper(slot) && slot.len() > 3 && slot[1] == first && slot[2] == second
}

/// The slots are names between braces, and their first two letters tell them apart.
proof fn lemma_names()
    ensures
        named("{systemName}"@, 's', 'y'),
        named("{user}"@, 'u', 's'),
        named("{email}"@, 'e', 'm'),
        named("{colors}"@, 'c', 'o'),
        named("{fullName}"@, 'f', 'u'),
        named("{wm}"@, 'w', 'm'),
        named("{terminal}"@, 't', 'e'),
        named("{dm}"@, 'd', 'm'),
        named("{launcher}"@, 'l', 'a'),
        named("{browser}"@, 'b', 'r'),
        named("{shell}"@, 's', 'h'),
        named("{editor}"@, 'e', 'd'),
        named("{wallpaper}"@, 'w', 'a'),
{
    reveal_strlit("{systemName}");
    reveal_strlit("{user}");
    reveal_strlit("{email}");
    reveal_strlit("{colors}");
    reveal_strlit("{fullName}");
    reveal_strlit("{wm}");
    reveal_strlit("{terminal}");
    reveal_strlit("{dm}");
    reveal_strlit("{launcher}");
    reveal_strlit("{browser}");
    reveal_strlit("{shell}");
    reveal_strlit("{editor}");
    reveal_strlit("{wallpaper}");
}

/// Whether the letter that a brace stands before starts no slot.
pub open spec fn foreign(c: char) -> bool {
    c == '\n' || c == 'p' || c == 'i'
}

/// A template is legible where each of its braces starts a slot or stands before a
/// letter that starts none.
proof fn lemma_legible(t: Seq<char>, slots: Seq<SlotView>)
    requires
        orderly(slots),
        forall|k: int| 0 <= k < slots.len() ==> !foreign((#[trigger] slots[k]).slot[1]),
        forall|i: int|
            0 <= i < t.len() && #[trigger] t[i] == '{' ==> {
                ||| i + 1 < t.len() && foreign(t[i + 1])
                ||| exists|k: int|
                    0 <= k < slots.len() && occurs_at(t, (#[trigger] slots[k]).slot, i)
            },
    ensures
        legible(t, slots),
{
    assert forall|i: int| 0 <= i < t.len() && #[trigger] t[i] == '{' implies begins(
        t.skip(i),
        slots,
    ) || stands_alone(t.skip(i), slots) by {
        let rest = t.skip(i);
        if i + 1 < t.len() && foreign(t[i + 1]) {
            assert(rest[1] == t[i + 1]);
            assert(stands_alone(rest, slots));
        } else {
            let k = choose|k: int|
                0 <= k < slots.len() && occurs_at(t, (#[trigger] slots[k]).slot, i);
            let p = slots[k].slot;
            assert(proper(p));
            assert(rest.subrange(0, p.len() as int) =~= t.subrange(i, i + p.len()));
            assert(starts_with_slot(rest, slots, k));
        }
    }
}

/// Where an opening brace of the template of the flake stands.
proof fn lemma_flake_braces(i: int)
    requires
        0 <= i < FLAKE_TEMPLATE@.len(),
        FLAKE_TEMPLATE@[i] == '{',
    ensures
        ({
            let t = FLAKE_TEMPLATE@;
            ||| i + 1 < t.len() && foreign(t[i + 1])
            ||| occurs_at(t, "{systemName}"@, i)
            ||| occurs_at(t, "{wm}"@, i)
            ||| occurs_at(t, "{terminal}"@, i)
            ||| occurs_at(t, "{dm}"@, i)
            ||| occurs_at(t, "{launcher}"@, i)
            ||| occurs_at(t, "{browser}"@, i)
            ||| occurs_at(t, "{shell}"@, i)
            ||| occurs_at(t, "{editor}"@, i)
        }),
{
    reveal_strlit(
        r#"{
  description = "My GlacierOS";
  inputs = {
    nixpkgs.url = "github:NixOS/nixpkgs";
    glacier.url = "github:ChickenChunk579/glacier";
  };
  outputs = {
    self,
    nixpkgs,
    glacier,
    ...
  }: let
    baseModules = [
      ./configuration.nix
      glacier.nixosModules.base
      glacier.glacierModules.{wm}
      glacier.glacierModules.{terminal}
      glacier.glacierModules.{dm}
      glacier.glacierModules.{launcher}
      glacier.glacierModules.{browser}
      glacier.glacierModules.{shell}
      glacier.glacierModules.{editor}
    ];
  in {
    nixosConfigurations = {
      {systemName} = nixpkgs.lib.nixosSystem {
        system = "x86_64-linux";
        specialArgs = {inherit glacier;};
        modules = baseModules ++ [./hosts/{systemName}.nix];
      };
      vm = nixpkgs.lib.nixosSystem {
        system = "x86_64-linux";
        specialArgs = {inherit glacier;};
        modules =
          baseModules
          ++ [
            (
              {pkgs, ...}: {
                virtualisation.vmVariant = {
                  virtualisation.memorySize = 2048;
                  virtualisation.cores = 2;
                  virtualisation.qemu.options = [
                    "-device virtio-vga-gl"
                    "-display gtk,gl=on"
                  ];
                };
              }
            )
          ];
      };
    };
  };
}
"#,
    );
    reveal_strlit("{systemName}");
    reveal_strlit("{wm}");
    reveal_strlit("{terminal}");
    reveal_strlit("{dm}");
    reveal_strlit("{launcher}");
    reveal_strlit("{browser}");
    reveal_strlit("{shell}");
    reveal_strlit("{editor}");
    let t = FLAKE_TEMPLATE@;
    if t[i + 1] == 's' && t[i + 2] == 'y' {
        assert(t.subrange(i, i + 12) =~= "{systemName}"@);
    } else if t[i + 1] == 'w' && t[i + 2] == 'm' {
        assert(t.subrange(i, i + 4) =~= "{wm}"@);
    } else if t[i + 1] == 't' && t[i + 2] == 'e' {
        assert(t.subrange(i, i + 10) =~= "{terminal}"@);
    } else if t[i + 1] == 'd' && t[i + 2] == 'm' {
        assert(t.subrange(i, i + 4) =~= "{dm}"@);
    } else if t[i + 1] == 'l' && t[i + 2] == 'a' {
        assert(t.subrange(i, i + 10) =~= "{launcher}"@);
    } else if t[i + 1] == 'b' && t[i + 2] == 'r' {
        assert(t.subrange(i, i + 9) =~= "{browser}"@);
    } else if t[i + 1] == 's' && t[i + 2] == 'h' {
        assert(t.subrange(i, i + 7) =~= "{shell}"@);
    } else if t[i + 1] == 'e' && t[i + 2] == 'd' {
        assert(t.subrange(i, i + 8) =~= "{editor}"@);
    }
}

/// Where an opening brace of the template of the configuration of the system stands.
proof fn lemma_configuration_braces(i: int)
    requires
        0 <= i < CONFIGURATION_TEMPLATE@.len(),
        CONFIGURATION_TEMPLATE@[i] == '{',
    ensures
        ({
            let t = CONFIGURATION_TEMPLATE@;
            ||| i + 1 < t.len() && foreign(t[i + 1])
            ||| occurs_at(t, "{user}"@, i)
            ||| occurs_at(t, "{email}"@, i)
            ||| occurs_at(t, "{colors}"@, i)
            ||| occurs_at(t, "{fullName}"@, i)
            ||| occurs_at(t, "{wm}"@, i)
            ||| occurs_at(t, "{terminal}"@, i)
            ||| occurs_at(t, "{dm}"@, i)
            ||| occurs_at(t, "{launcher}"@, i)
            ||| occurs_at(t, "{browser}"@, i)
            ||| occurs_at(t, "{shell}"@, i)
            ||| occurs_at(t, "{editor}"@, i)
        }),
{
    reveal_strlit(
        r#"{
  pkgs,
  config,
  lib,
  glacier,
  ...
}: {
  glacier.enable = true;
  glacier.homeModules = [
    glacier.glacierHomeModules.{wm}
    glacier.glacierHomeModules.{terminal}
    glacier.glacierHomeModules.{shell}
    glacier.glacierHomeModules.{launcher}
    glacier.glacierHomeModules.{browser}
    glacier.glacierHomeModules.{editor}
    glacier.glacierThemeModules.{colors}
  ];
  glacier.{wm}.enable = true;
  glacier.{terminal}.enable = true;
  glacier.{dm}.enable = true;
  glacier.{launcher}.enable = true;
  glacier.{browser}.enable = true;
  glacier.{shell}.enable = true;

  glacier.users.{user} = {
    fullName = "{fullName}";
    emailAddress = "{email}";
    home = ./home.nix;
    wallpapers = [];
  };

  environment.systemPackages = with pkgs; [
    micro
    gnumake
    nautilus
    fzf
  ];

  networking.networkmanager.enable = true;

  nix.settings = {
    max-jobs = "auto";
    cores = 0;
  };

  nix.optimise.automatic = true;

  system.stateVersion = "26.05";
}
"#,
    );
    reveal_strlit("{user}");
    reveal_strlit("{email}");
    reveal_strlit("{colors}");
    reveal_strlit("{fullName}");
    reveal_strlit("{wm}");
    reveal_strlit("{terminal}");
    reveal_strlit("{dm}");
    reveal_strlit("{launcher}");
    reveal_strlit("{browser}");
    reveal_strlit("{shell}");
    reveal_strlit("{editor}");
    let t = CONFIGURATION_TEMPLATE@;
    if t[i + 1] == 'u' && t[i + 2] == 's' {
        assert(t.subrange(i, i + 6) =~= "{user}"@);
    } else if t[i + 1] == 'e' && t[i + 2] == 'm' {
        assert(t.subrange(i, i + 7) =~= "{email}"@);
    } else if t[i + 1] == 'c' && t[i + 2] == 'o' {
        assert(t.subrange(i, i + 8) =~= "{colors}"@);
    } else if t[i + 1] == 'f' && t[i + 2] == 'u' {
        assert(t.subrange(i, i + 10) =~= "{fullName}"@);
    } else if t[i + 1] == 'w' && t[i + 2] == 'm' {
        assert(t.subrange(i, i + 4) =~= "{wm}"@);
    } else if t[i + 1] == 't' && t[i + 2] == 'e' {
        assert(t.subrange(i, i + 10) =~= "{terminal}"@);
    } else if t[i + 1] == 'd' && t[i + 2] == 'm' {
        assert(t.subrange(i, i + 4) =~= "{dm}"@);
    } else if t[i + 1] == 'l' && t[i + 2] == 'a' {
        assert(t.subrange(i, i + 10) =~= "{launcher}"@);
    } else if t[i + 1] == 'b' && t[i + 2] == 'r' {
        assert(t.subrange(i, i + 9) =~= "{browser}"@);
    } else if t[i + 1] == 's' && t[i + 2] == 'h' {
        assert(t.subrange(i, i + 7) =~= "{shell}"@);
    } else if t[i + 1] == 'e' && t[i + 2] == 'd' {
        assert(t.subrange(i, i + 8) =~= "{editor}"@);
    }
}

/// Where an opening brace of the template of the configuration of the home directory stands.
proof fn lemma_home_braces(i: int)
    requires
        0 <= i < HOME_TEMPLATE@.len(),
        HOME_TEMPLATE@[i] == '{',
    ensures
        ({
            let t = HOME_TEMPLATE@;
            ||| i + 1 < t.len() && foreign(t[i + 1])
            ||| occurs_at(t, "{wallpaper}"@, i)
        }),
{
    reveal_strlit(
        r#"{
  pkgs,
  config,
  lib,
  glacier,
  ...
}: {
  home.stateVersion = "25.11";
  glacier.wallpaper = config.glacier.defaultWallpapers.{wallpaper};
}
"#,
    );
    reveal_strlit("{wallpaper}");
    let t = HOME_TEMPLATE@;
    if t[i + 1] == 'w' && t[i + 2] == 'a' {
        assert(t.subrange(i, i + 11) =~= "{wallpaper}"@);
    }
}

/// The slots of the flake fit the laws of templates.
pub proof fn lemma_flake_slots(a: AnswersView)
    requires
        without_braces(a),
    ensures
        orderly(flake_slots(a)),
        forall|k: int|
            0 <= k < flake_slots(a).len() ==> !foreign((#[trigger] flake_slots(a)[k]).slot[1]),
{
    lemma_names();
}

/// Law: the flake is its template with each slot exchanged for the answer, and
/// all else as it is.
pub proof fn law_flake_holds_the_answers(a: AnswersView)
    requires
        without_braces(a),
    ensures
        filled(FLAKE_TEMPLATE@, flake_slots(a)) == filled_at_once(
            FLAKE_TEMPLATE@,
            flake_slots(a),
        ),
{
    lemma_names();
    let t = FLAKE_TEMPLATE@;
    let slots = flake_slots(a);
    assert(orderly(slots));
    assert forall|i: int| 0 <= i < t.len() && #[trigger] t[i] == '{' implies {
        ||| i + 1 < t.len() && foreign(t[i + 1])
        ||| exists|k: int| 0 <= k < slots.len() && occurs_at(t, (#[trigger] slots[k]).slot, i)
    } by {
        lemma_flake_braces(i);
        assert(slots[0].slot == "{systemName}"@);
        assert(slots[1].slot == "{wm}"@);
        assert(slots[2].slot == "{terminal}"@);
        assert(slots[3].slot == "{dm}"@);
        assert(slots[4].slot == "{launcher}"@);
        assert(slots[5].slot == "{browser}"@);
        assert(slots[6].slot == "{shell}"@);
        assert(slots[7].slot == "{editor}"@);
    }
    lemma_legible(t, slots);
    law_every_slot_gets_its_value(t, slots);
}

/// The slots of the configuration of the system fit the laws of templates.
pub proof fn lemma_configuration_slots(a: AnswersView)
    requires
        without_braces(a),
    ensures
        orderly(configuration_slots(a)),
        forall|k: int|
            0 <= k < configuration_slots(a).len() ==> !foreign((#[trigger] configuration_slots(a)[k]).slot[1]),
{
    lemma_names();
}

/// Law: the configuration of the system is its template with each slot exchanged for the answer, and
/// all else as it is.
pub proof fn law_configuration_holds_the_answers(a: AnswersView)
    requires
        without_braces(a),
    ensures
        filled(CONFIGURATION_TEMPLATE@, configuration_slots(a)) == filled_at_once(
            CONFIGURATION_TEMPLATE@,
            configuration_slots(a),
        ),
{
    lemma_names();
    let t = CONFIGURATION_TEMPLATE@;
    let slots = configuration_slots(a);
    assert(orderly(slots));
    assert forall|i: int| 0 <= i < t.len() && #[trigger] t[i] == '{' implies {
        ||| i + 1 < t.len() && foreign(t[i + 1])
        ||| exists|k: int| 0 <= k < slots.len() && occurs_at(t, (#[trigger] slots[k]).slot, i)
    } by {
        lemma_configuration_braces(i);
        assert(slots[0].slot == "{systemName}"@);
        assert(slots[1].slot == "{user}"@);
        assert(slots[2].slot == "{email}"@);
        assert(slots[3].slot == "{colors}"@);
        assert(slots[4].slot == "{fullName}"@);
        assert(slots[5].slot == "{wm}"@);
        assert(slots[6].slot == "{terminal}"@);
        assert(slots[7].slot == "{dm}"@);
        assert(slots[8].slot == "{launcher}"@);
        assert(slots[9].slot == "{browser}"@);
        assert(slots[10].slot == "{shell}"@);
        assert(slots[11].slot == "{editor}"@);
    }
    lemma_legible(t, slots);
    law_every_slot_gets_its_value(t, slots);
}

/// The slots of the configuration of the home directory fit the laws of templates.
pub proof fn lemma_home_slots(a: AnswersView)
    requires
        without_braces(a),
    ensures
        orderly(home_slots(a)),
        forall|k: int|
            0 <= k < home_slots(a).len() ==> !foreign((#[trigger] home_slots(a)[k]).slot[1]),
{
    lemma_names();
}

/// Law: the configuration of the home directory is its template with each slot exchanged for the answer, and
/// all else as it is.
pub proof fn law_home_holds_the_answers(a: AnswersView)
    requires
        without_braces(a),
    ensures
        filled(HOME_TEMPLATE@, home_slots(a)) == filled_at_once(
            HOME_TEMPLATE@,
            home_slots(a),
        ),
{
    lemma_names();
    let t = HOME_TEMPLATE@;
    let slots = home_slots(a);
    assert(orderly(slots));
    assert forall|i: int| 0 <= i < t.len() && #[trigger] t[i] == '{' implies {
        ||| i + 1 < t.len() && foreign(t[i + 1])
        ||| exists|k: int| 0 <= k < slots.len() && occurs_at(t, (#[trigger] slots[k]).slot, i)
    } by {
        lemma_home_braces(i);
        assert(slots[0].slot == "{wallpaper}"@);
    }
    lemma_legible(t, slots);
    law_every_slot_gets_its_value(t, slots);
}

/// Law: only what is typed can bring an opening brace into the answers.
pub proof fn law_options_hold_no_braces(list: Seq<Seq<char>>)
    requires
        list.len() == questions().len(),
        forall|i: int| 0 <= i < list.len() ==> fits(questions()[i], #[trigger] list[i]),
        forall|i: int|
            0 <= i < list.len() && questions()[i] is Ask ==> !(#[trigger] list[i]).contains('{'),
    ensures
        without_braces(answers_of(list)),
{
    reveal_strlit("hyprland");
    reveal_strlit("kitty");
    reveal_strlit("sddm");
    reveal_strlit("wofi");
    reveal_strlit("firefox");
    reveal_strlit("exoshell");
    reveal_strlit("noctalia");
    reveal_strlit("dms");
    reveal_strlit("micro");
    reveal_strlit("nixos");
    reveal_strlit("mountain");
    reveal_strlit("strips");
    reveal_strlit("gradient");
    reveal_strlit("everforest");
    reveal_strlit("nord");
    reveal_strlit("dracula");
    reveal_strlit("catppuccinFrappe");
    reveal_strlit("iceberg");
    reveal_strlit("icebergDark");
    reveal_strlit("kawagama");
    reveal_strlit("rosePine");
    reveal_strlit("tokyoNight");
    reveal_strlit("oxocarbon");
    reveal_strlit("monokaiPro");
    reveal_strlit("synthwave");
    reveal_strlit("atom");
    assert forall|i: int| 0 <= i < list.len() implies !(#[trigger] list[i]).contains('{') by {
        assert(fits(questions()[i], list[i]));
    }
}

} // verus!
