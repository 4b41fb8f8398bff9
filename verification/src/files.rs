//! The exact files of a configuration: which text they hold, and where in it each
//! answer stands.

use vstd::prelude::*;

use crate::config::{
    configuration_slots, flake_slots, home_slots, AnswersView, CONFIGURATION_TEMPLATE,
    FLAKE_TEMPLATE, HOME_TEMPLATE,
};
use crate::slots::{
    foreign, law_configuration_holds_the_answers, law_flake_holds_the_answers,
    law_home_holds_the_answers, lemma_configuration_slots, lemma_flake_slots, lemma_home_slots,
    without_braces,
};
use crate::template::{
    begins, filled, filled_at_once, lemma_begins_with_brace, lemma_one_slot, orderly, proper,
    starts_with_slot, SlotView,
};
use crate::text::occurs_at;

verus! {

/// The texts from number `k` on, with the gaps between them filled.
pub open spec fn spelled(texts: Seq<Seq<char>>, gaps: Seq<Seq<char>>, k: int) -> Seq<char>
    decreases gaps.len() - k,
{
    if k >= gaps.len() {
        texts[k]
    } else {
        texts[k] + (gaps[k] + spelled(texts, gaps, k + 1))
    }
}

/// Whether every opening brace of a text stands before a letter that starts no slot.
spec fn plain_text(v: Seq<char>) -> bool {
    forall|i: int| 0 <= i < v.len() && #[trigger] v[i] == '{' ==> i + 1 < v.len() && foreign(
        v[i + 1],
    )
}

/// A text without slots is left as it is.
proof fn lemma_plain(v: Seq<char>, rest: Seq<char>, slots: Seq<SlotView>)
    requires
        orderly(slots),
        forall|k: int| 0 <= k < slots.len() ==> !foreign((#[trigger] slots[k]).slot[1]),
        plain_text(v),
    ensures
        filled_at_once(v + rest, slots) == v + filled_at_once(rest, slots),
    decreases v.len(),
{
    let s = v + rest;
    if v.len() == 0 {
        assert(s =~= rest);
        assert(v + filled_at_once(rest, slots) =~= filled_at_once(rest, slots));
    } else {
        assert(!begins(s, slots)) by {
            if begins(s, slots) {
                let k = choose|k: int| starts_with_slot(s, slots, k);
                let p = slots[k].slot;
                assert(proper(p));
                lemma_begins_with_brace(s, slots);
                assert(v[0] == '{');
                assert(s.subrange(0, p.len() as int)[1] == s[1]);
                assert(s[1] == v[1]);
            }
        }
        let w = v.skip(1);
        assert forall|i: int| 0 <= i < w.len() && #[trigger] w[i] == '{' implies i + 1 < w.len()
            && foreign(w[i + 1]) by {
            assert(v[i + 1] == '{');
        }
        lemma_plain(w, rest, slots);
        assert(s.skip(1) =~= w + rest);
        assert(seq![s[0]] + (w + filled_at_once(rest, slots)) =~= v + filled_at_once(rest, slots));
    }
}

/// A slot is exchanged for its value.
proof fn lemma_slot(rest: Seq<char>, slots: Seq<SlotView>, k: int)
    requires
        orderly(slots),
        0 <= k < slots.len(),
    ensures
        filled_at_once(slots[k].slot + rest, slots) == slots[k].value + filled_at_once(rest, slots),
{
    let p = slots[k].slot;
    let s = p + rest;
    assert(proper(p));
    assert(s.subrange(0, p.len() as int) =~= p);
    assert(starts_with_slot(s, slots, k));
    let j = choose|j: int| starts_with_slot(s, slots, j);
    assert(proper(slots[j].slot));
    lemma_one_slot(s, slots[j].slot, p);
    assert(j == k);
    assert(s.skip(p.len() as int) =~= rest);
}

/// Whether slot `j` has this name and this value.
pub open spec fn gives(slots: Seq<SlotView>, j: int, name: Seq<char>, value: Seq<char>) -> bool {
    0 <= j < slots.len() && slots[j].slot == name && slots[j].value == value
}

/// Whether some slot has this name and this value.
spec fn given(slots: Seq<SlotView>, name: Seq<char>, value: Seq<char>) -> bool {
    exists|j: int| gives(slots, j, name, value)
}

/// Texts with slots between them become the texts with the values between them.
proof fn lemma_spelled(
    texts: Seq<Seq<char>>,
    names: Seq<Seq<char>>,
    values: Seq<Seq<char>>,
    slots: Seq<SlotView>,
    k: int,
)
    requires
        orderly(slots),
        forall|i: int| 0 <= i < slots.len() ==> !foreign((#[trigger] slots[i]).slot[1]),
        texts.len() == names.len() + 1,
        values.len() == names.len(),
        forall|i: int| 0 <= i < texts.len() ==> plain_text(#[trigger] texts[i]),
        forall|i: int|
            0 <= i < names.len() ==> #[trigger] given(slots, names[i], values[i]),
        0 <= k <= names.len(),
    ensures
        filled_at_once(spelled(texts, names, k), slots) == spelled(texts, values, k),
    decreases names.len() - k,
{
    assert(plain_text(texts[k]));
    if k == names.len() {
        let none: Seq<char> = seq![];
        lemma_plain(texts[k], none, slots);
        assert(texts[k] + none =~= texts[k]);
        assert(texts[k] + filled_at_once(none, slots) =~= texts[k]);
    } else {
        lemma_spelled(texts, names, values, slots, k + 1);
        let rest = spelled(texts, names, k + 1);
        assert(given(slots, names[k], values[k]));
        let j = choose|j: int| gives(slots, j, names[k], values[k]);
        lemma_plain(texts[k], names[k] + rest, slots);
        lemma_slot(rest, slots, j);
    }
}

/// What stands in a text from position `n` on, where a text and a name do.
proof fn lemma_part(t: Seq<char>, n: int, text: Seq<char>, name: Seq<char>)
    requires
        occurs_at(t, text, n),
        occurs_at(t, name, n + text.len()),
    ensures
        t.skip(n) == text + (name + t.skip(n + text.len() + name.len())),
{
    let m = n + text.len();
    assert(t.subrange(n, m) == text);
    assert(t.subrange(m, m + name.len()) == name);
    assert(t.skip(n) =~= text + (name + t.skip(m + name.len())));
}

/// The texts of the flake, before, between and behind the answers.
pub open spec fn flake_texts() -> Seq<Seq<char>> {
    seq![
        r#"{
  description = "My GlacierOS";
  inputs = {
    nixpkgs.url = "github:NixOS/nixpkgs";
    glacier.url = "github:ChickenChunk579/glacier";
  };
  outputs = {
    self,
    nixpkgs,
    glacier,
    ...
  }: let
    baseModules = [
      ./configuration.nix
      glacier.nixosModules.base
      glacier.glacierModules."#@,
        r#"
      glacier.glacierModules."#@,
        r#"
      glacier.glacierModules."#@,
        r#"
      glacier.glacierModules."#@,
        r#"
      glacier.glacierModules."#@,
        r#"
      glacier.glacierModules."#@,
        r#"
      glacier.glacierModules."#@,
        r#"
    ];
  in {
    nixosConfigurations = {
      "#@,
        r#" = nixpkgs.lib.nixosSystem {
        system = "x86_64-linux";
        specialArgs = {inherit glacier;};
        modules = baseModules ++ [./hosts/"#@,
        r#".nix];
      };
      vm = nixpkgs.lib.nixosSystem {
        system = "x86_64-linux";
        specialArgs = {inherit glacier;};
        modules =
          baseModules
          ++ [
            (
              {pkgs, ...}: {
                virtualisation.vmVariant = {
                  virtualisation.memorySize = 2048;
                  virtualisation.cores = 2;
                  virtualisation.qemu.options = [
                    "-device virtio-vga-gl"
                    "-display gtk,gl=on"
                  ];
                };
              }
            )
          ];
      };
    };
  };
}
"#@,
    ]
}

/// The names of the answers in the flake, in the order in which they stand.
spec fn flake_names() -> Seq<Seq<char>> {
    seq![
        "{wm}"@,
        "{terminal}"@,
        "{dm}"@,
        "{launcher}"@,
        "{browser}"@,
        "{shell}"@,
        "{editor}"@,
        "{systemName}"@,
        "{systemName}"@,
    ]
}

/// No text of the flake holds a slot.
proof fn lemma_flake_texts(k: int)
    requires
        0 <= k < flake_texts().len(),
    ensures
        plain_text(flake_texts()[k]),
{
    reveal_strlit(r#"{
  description = "My GlacierOS";
  inputs = {
    nixpkgs.url = "github:NixOS/nixpkgs";
    glacier.url = "github:ChickenChunk579/glacier";
  };
  outputs = {
    self,
    nixpkgs,
    glacier,
    ...
  }: let
    baseModules = [
      ./configuration.nix
      glacier.nixosModules.base
      glacier.glacierModules."#);
    reveal_strlit(r#"
      glacier.glacierModules."#);
    reveal_strlit(r#"
      glacier.glacierModules."#);
    reveal_strlit(r#"
      glacier.glacierModules."#);
    reveal_strlit(r#"
      glacier.glacierModules."#);
    reveal_strlit(r#"
      glacier.glacierModules."#);
    reveal_strlit(r#"
      glacier.glacierModules."#);
    reveal_strlit(r#"
    ];
  in {
    nixosConfigurations = {
      "#);
    reveal_strlit(r#" = nixpkgs.lib.nixosSystem {
        system = "x86_64-linux";
        specialArgs = {inherit glacier;};
        modules = baseModules ++ [./hosts/"#);
    reveal_strlit(r#".nix];
      };
      vm = nixpkgs.lib.nixosSystem {
        system = "x86_64-linux";
        specialArgs = {inherit glacier;};
        modules =
          baseModules
          ++ [
            (
              {pkgs, ...}: {
                virtualisation.vmVariant = {
                  virtualisation.memorySize = 2048;
                  virtualisation.cores = 2;
                  virtualisation.qemu.options = [
                    "-device virtio-vga-gl"
                    "-display gtk,gl=on"
                  ];
                };
              }
            )
          ];
      };
    };
  };
}
"#);
    assert(plain_text(flake_texts()[0]));
    assert(plain_text(flake_texts()[1]));
    assert(plain_text(flake_texts()[2]));
    assert(plain_text(flake_texts()[3]));
    assert(plain_text(flake_texts()[4]));
    assert(plain_text(flake_texts()[5]));
    assert(plain_text(flake_texts()[6]));
    assert(plain_text(flake_texts()[7]));
    assert(plain_text(flake_texts()[8]));
    assert(plain_text(flake_texts()[9]));
}

/// The template of the flake, text by text.
#[verifier::rlimit(60)]
proof fn lemma_flake_spelled()
    ensures
        FLAKE_TEMPLATE@ == spelled(flake_texts(), flake_names(), 0),
{
    let t = FLAKE_TEMPLATE@;
    let texts = flake_texts();
    let names = flake_names();
    reveal_strlit(
        r#"{
  description = "My GlacierOS";
  inputs = {
    nixpkgs.url = "github:NixOS/nixpkgs";
    glacier.url = "github:ChickenChunk579/glacier";
  };
  outputs = {
    self,
    nixpkgs,
    glacier,
    ...
  }: let
    baseModules = [
      ./configuration.nix
      glacier.nixosModules.base
      glacier.glacierModules.{wm}
      glacier.glacierModules.{terminal}
      glacier.glacierModules.{dm}
      glacier.glacierModules.{launcher}
      glacier.glacierModules.{browser}
      glacier.glacierModules.{shell}
      glacier.glacierModules.{editor}
    ];
  in {
    nixosConfigurations = {
      {systemName} = nixpkgs.lib.nixosSystem {
        system = "x86_64-linux";
        specialArgs = {inherit glacier;};
        modules = baseModules ++ [./hosts/{systemName}.nix];
      };
      vm = nixpkgs.lib.nixosSystem {
        system = "x86_64-linux";
        specialArgs = {inherit glacier;};
        modules =
          baseModules
          ++ [
            (
              {pkgs, ...}: {
                virtualisation.vmVariant = {
                  virtualisation.memorySize = 2048;
                  virtualisation.cores = 2;
                  virtualisation.qemu.options = [
                    "-device virtio-vga-gl"
                    "-display gtk,gl=on"
                  ];
                };
              }
            )
          ];
      };
    };
  };
}
"#,
    );
    reveal_strlit(r#"{
  description = "My GlacierOS";
  inputs = {
    nixpkgs.url = "github:NixOS/nixpkgs";
    glacier.url = "github:ChickenChunk579/glacier";
  };
  outputs = {
    self,
    nixpkgs,
    glacier,
    ...
  }: let
    baseModules = [
      ./configuration.nix
      glacier.nixosModules.base
      glacier.glacierModules."#);
    reveal_strlit(r#"
      glacier.glacierModules."#);
    reveal_strlit(r#"
    ];
  in {
    nixosConfigurations = {
      "#);
    reveal_strlit(r#" = nixpkgs.lib.nixosSystem {
        system = "x86_64-linux";
        specialArgs = {inherit glacier;};
        modules = baseModules ++ [./hosts/"#);
    reveal_strlit(r#".nix];
      };
      vm = nixpkgs.lib.nixosSystem {
        system = "x86_64-linux";
        specialArgs = {inherit glacier;};
        modules =
          baseModules
          ++ [
            (
              {pkgs, ...}: {
                virtualisation.vmVariant = {
                  virtualisation.memorySize = 2048;
                  virtualisation.cores = 2;
                  virtualisation.qemu.options = [
                    "-device virtio-vga-gl"
                    "-display gtk,gl=on"
                  ];
                };
              }
            )
          ];
      };
    };
  };
}
"#);
    reveal_strlit("{wm}");
    reveal_strlit("{terminal}");
    reveal_strlit("{dm}");
    reveal_strlit("{launcher}");
    reveal_strlit("{browser}");
    reveal_strlit("{shell}");
    reveal_strlit("{editor}");
    reveal_strlit("{systemName}");
    let n0: int = 0;
    let m0: int = n0 + texts[0].len();
    let n1: int = m0 + names[0].len();
    let m1: int = n1 + texts[1].len();
    let n2: int = m1 + names[1].len();
    let m2: int = n2 + texts[2].len();
    let n3: int = m2 + names[2].len();
    let m3: int = n3 + texts[3].len();
    let n4: int = m3 + names[3].len();
    let m4: int = n4 + texts[4].len();
    let n5: int = m4 + names[4].len();
    let m5: int = n5 + texts[5].len();
    let n6: int = m5 + names[5].len();
    let m6: int = n6 + texts[6].len();
    let n7: int = m6 + names[6].len();
    let m7: int = n7 + texts[7].len();
    let n8: int = m7 + names[7].len();
    let m8: int = n8 + texts[8].len();
    let n9: int = m8 + names[8].len();
    assert(t.subrange(n0, m0) =~= texts[0]);
    assert(t.subrange(m0, n1) =~= names[0]);
    lemma_part(t, n0, texts[0], names[0]);
    assert(t.subrange(n1, m1) =~= texts[1]);
    assert(t.subrange(m1, n2) =~= names[1]);
    lemma_part(t, n1, texts[1], names[1]);
    assert(t.subrange(n2, m2) =~= texts[2]);
    assert(t.subrange(m2, n3) =~= names[2]);
    lemma_part(t, n2, texts[2], names[2]);
    assert(t.subrange(n3, m3) =~= texts[3]);
    assert(t.subrange(m3, n4) =~= names[3]);
    lemma_part(t, n3, texts[3], names[3]);
    assert(t.subrange(n4, m4) =~= texts[4]);
    assert(t.subrange(m4, n5) =~= names[4]);
    lemma_part(t, n4, texts[4], names[4]);
    assert(t.subrange(n5, m5) =~= texts[5]);
    assert(t.subrange(m5, n6) =~= names[5]);
    lemma_part(t, n5, texts[5], names[5]);
    assert(t.subrange(n6, m6) =~= texts[6]);
    assert(t.subrange(m6, n7) =~= names[6]);
    lemma_part(t, n6, texts[6], names[6]);
    assert(t.subrange(n7, m7) =~= texts[7]);
    assert(t.subrange(m7, n8) =~= names[7]);
    lemma_part(t, n7, texts[7], names[7]);
    assert(t.subrange(n8, m8) =~= texts[8]);
    assert(t.subrange(m8, n9) =~= names[8]);
    lemma_part(t, n8, texts[8], names[8]);
    assert(t.skip(n9) =~= texts[9]);
    assert(spelled(texts, names, 9) == texts[9]);
    assert(spelled(texts, names, 8) == t.skip(n8));
    assert(spelled(texts, names, 7) == t.skip(n7));
    assert(spelled(texts, names, 6) == t.skip(n6));
    assert(spelled(texts, names, 5) == t.skip(n5));
    assert(spelled(texts, names, 4) == t.skip(n4));
    assert(spelled(texts, names, 3) == t.skip(n3));
    assert(spelled(texts, names, 2) == t.skip(n2));
    assert(spelled(texts, names, 1) == t.skip(n1));
    assert(spelled(texts, names, 0) == t.skip(n0));
    assert(t.skip(0) =~= t);
}

/// Law: the flake is exactly this text, with these answers in it, where no
/// answer holds an opening brace.
pub proof fn law_the_text_of_flake(a: AnswersView)
    requires
        without_braces(a),
    ensures
        filled(FLAKE_TEMPLATE@, flake_slots(a)) == spelled(
            flake_texts(),
            seq![
                a.wm,
                a.terminal,
                a.dm,
                a.launcher,
                a.browser,
                a.shell,
                a.editor,
                a.system_name,
                a.system_name,
            ],
            0,
        ),
{
    let values = seq![
        a.wm,
        a.terminal,
        a.dm,
        a.launcher,
        a.browser,
        a.shell,
        a.editor,
        a.system_name,
        a.system_name,
    ];
    let slots = flake_slots(a);
    let names = flake_names();
    law_flake_holds_the_answers(a);
    lemma_flake_slots(a);
    lemma_flake_spelled();
    assert forall|i: int| 0 <= i < flake_texts().len() implies plain_text(
        #[trigger] flake_texts()[i],
    ) by {
        lemma_flake_texts(i);
    }
    assert forall|i: int| 0 <= i < names.len() implies #[trigger] given(
        slots,
        names[i],
        values[i],
    ) by {
        assert(gives(slots, 0, "{systemName}"@, a.system_name));
        assert(gives(slots, 1, "{wm}"@, a.wm));
        assert(gives(slots, 2, "{terminal}"@, a.terminal));
        assert(gives(slots, 3, "{dm}"@, a.dm));
        assert(gives(slots, 4, "{launcher}"@, a.launcher));
        assert(gives(slots, 5, "{browser}"@, a.browser));
        assert(gives(slots, 6, "{shell}"@, a.shell));
        assert(gives(slots, 7, "{editor}"@, a.editor));
    }
    lemma_spelled(flake_texts(), names, values, slots, 0);
}

/// The texts of the configuration of the system, before, between and behind the answers.
pub open spec fn configuration_texts() -> Seq<Seq<char>> {
    seq![
        r#"{
  pkgs,
  config,
  lib,
  glacier,
  ...
}: {
  glacier.enable = true;
  glacier.homeModules = [
    glacier.glacierHomeModules."#@,
        r#"
    glacier.glacierHomeModules."#@,
        r#"
    glacier.glacierHomeModules."#@,
        r#"
    glacier.glacierHomeModules."#@,
        r#"
    glacier.glacierHomeModules."#@,
        r#"
    glacier.glacierHomeModules."#@,
        r#"
    glacier.glacierThemeModules."#@,
        r#"
  ];
  glacier."#@,
        r#".enable = true;
  glacier."#@,
        r#".enable = true;
  glacier."#@,
        r#".enable = true;
  glacier."#@,
        r#".enable = true;
  glacier."#@,
        r#".enable = true;
  glacier."#@,
        r#".enable = true;

  glacier.users."#@,
        r#" = {
    fullName = ""#@,
        r#"";
    emailAddress = ""#@,
        r#"";
    home = ./home.nix;
    wallpapers = [];
  };

  environment.systemPackages = with pkgs; [
    micro
    gnumake
    nautilus
    fzf
  ];

  networking.networkmanager.enable = true;

  nix.settings = {
    max-jobs = "auto";
    cores = 0;
  };

  nix.optimise.automatic = true;

  system.stateVersion = "26.05";
}
"#@,
    ]
}

/// The names of the answers in the configuration of the system, in the order in which they stand.
spec fn configuration_names() -> Seq<Seq<char>> {
    seq![
        "{wm}"@,
        "{terminal}"@,
        "{shell}"@,
        "{launcher}"@,
        "{browser}"@,
        "{editor}"@,
        "{colors}"@,
        "{wm}"@,
        "{terminal}"@,
        "{dm}"@,
        "{launcher}"@,
        "{browser}"@,
        "{shell}"@,
        "{user}"@,
        "{fullName}"@,
        "{email}"@,
    ]
}

/// No text of the configuration of the system holds a slot.
proof fn lemma_configuration_texts(k: int)
    requires
        0 <= k < configuration_texts().len(),
    ensures
        plain_text(configuration_texts()[k]),
{
    reveal_strlit(r#"{
  pkgs,
  config,
  lib,
  glacier,
  ...
}: {
  glacier.enable = true;
  glacier.homeModules = [
    glacier.glacierHomeModules."#);
    reveal_strlit(r#"
    glacier.glacierHomeModules."#);
    reveal_strlit(r#"
    glacier.glacierHomeModules."#);
    reveal_strlit(r#"
    glacier.glacierHomeModules."#);
    reveal_strlit(r#"
    glacier.glacierHomeModules."#);
    reveal_strlit(r#"
    glacier.glacierHomeModules."#);
    reveal_strlit(r#"
    glacier.glacierThemeModules."#);
    reveal_strlit(r#"
  ];
  glacier."#);
    reveal_strlit(r#".enable = true;
  glacier."#);
    reveal_strlit(r#".enable = true;
  glacier."#);
    reveal_strlit(r#".enable = true;
  glacier."#);
    reveal_strlit(r#".enable = true;
  glacier."#);
    reveal_strlit(r#".enable = true;
  glacier."#);
    reveal_strlit(r#".enable = true;

  glacier.users."#);
    reveal_strlit(r#" = {
    fullName = ""#);
    reveal_strlit(r#"";
    emailAddress = ""#);
    reveal_strlit(r#"";
    home = ./home.nix;
    wallpapers = [];
  };

  environment.systemPackages = with pkgs; [
    micro
    gnumake
    nautilus
    fzf
  ];

  networking.networkmanager.enable = true;

  nix.settings = {
    max-jobs = "auto";
    cores = 0;
  };

  nix.optimise.automatic = true;

  system.stateVersion = "26.05";
}
"#);
    assert(plain_text(configuration_texts()[0]));
    assert(plain_text(configuration_texts()[1]));
    assert(plain_text(configuration_texts()[2]));
    assert(plain_text(configuration_texts()[3]));
    assert(plain_text(configuration_texts()[4]));
    assert(plain_text(configuration_texts()[5]));
    assert(plain_text(configuration_texts()[6]));
    assert(plain_text(configuration_texts()[7]));
    assert(plain_text(configuration_texts()[8]));
    assert(plain_text(configuration_texts()[9]));
    assert(plain_text(configuration_texts()[10]));
    assert(plain_text(configuration_texts()[11]));
    assert(plain_text(configuration_texts()[12]));
    assert(plain_text(configuration_texts()[13]));
    assert(plain_text(configuration_texts()[14]));
    assert(plain_text(configuration_texts()[15]));
    assert(plain_text(configuration_texts()[16]));
}

/// The template of the configuration of the system, text by text.
#[verifier::rlimit(60)]
proof fn lemma_configuration_spelled()
    ensures
        CONFIGURATION_TEMPLATE@ == spelled(configuration_texts(), configuration_names(), 0),
{
    let t = CONFIGURATION_TEMPLATE@;
    let texts = configuration_texts();
    let names = configuration_names();
    reveal_strlit(
        r#"{
  pkgs,
  config,
  lib,
  glacier,
  ...
}: {
  glacier.enable = true;
  glacier.homeModules = [
    glacier.glacierHomeModules.{wm}
    glacier.glacierHomeModules.{terminal}
    glacier.glacierHomeModules.{shell}
    glacier.glacierHomeModules.{launcher}
    glacier.glacierHomeModules.{browser}
    glacier.glacierHomeModules.{editor}
    glacier.glacierThemeModules.{colors}
  ];
  glacier.{wm}.enable = true;
  glacier.{terminal}.enable = true;
  glacier.{dm}.enable = true;
  glacier.{launcher}.enable = true;
  glacier.{browser}.enable = true;
  glacier.{shell}.enable = true;

  glacier.users.{user} = {
    fullName = "{fullName}";
    emailAddress = "{email}";
    home = ./home.nix;
    wallpapers = [];
  };

  environment.systemPackages = with pkgs; [
    micro
    gnumake
    nautilus
    fzf
  ];

  networking.networkmanager.enable = true;

  nix.settings = {
    max-jobs = "auto";
    cores = 0;
  };

  nix.optimise.automatic = true;

  system.stateVersion = "26.05";
}
"#,
    );
    reveal_strlit(r#"{
  pkgs,
  config,
  lib,
  glacier,
  ...
}: {
  glacier.enable = true;
  glacier.homeModules = [
    glacier.glacierHomeModules."#);
    reveal_strlit(r#"
    glacier.glacierHomeModules."#);
    reveal_strlit(r#"
    glacier.glacierThemeModules."#);
    reveal_strlit(r#"
  ];
  glacier."#);
    reveal_strlit(r#".enable = true;
  glacier."#);
    reveal_strlit(r#".enable = true;

  glacier.users."#);
    reveal_strlit(r#" = {
    fullName = ""#);
    reveal_strlit(r#"";
    emailAddress = ""#);
    reveal_strlit(r#"";
    home = ./home.nix;
    wallpapers = [];
  };

  environment.systemPackages = with pkgs; [
    micro
    gnumake
    nautilus
    fzf
  ];

  networking.networkmanager.enable = true;

  nix.settings = {
    max-jobs = "auto";
    cores = 0;
  };

  nix.optimise.automatic = true;

  system.stateVersion = "26.05";
}
"#);
    reveal_strlit("{wm}");
    reveal_strlit("{terminal}");
    reveal_strlit("{shell}");
    reveal_strlit("{launcher}");
    reveal_strlit("{browser}");
    reveal_strlit("{editor}");
    reveal_strlit("{colors}");
    reveal_strlit("{dm}");
    reveal_strlit("{user}");
    reveal_strlit("{fullName}");
    reveal_strlit("{email}");
    let n0: int = 0;
    let m0: int = n0 + texts[0].len();
    let n1: int = m0 + names[0].len();
    let m1: int = n1 + texts[1].len();
    let n2: int = m1 + names[1].len();
    let m2: int = n2 + texts[2].len();
    let n3: int = m2 + names[2].len();
    let m3: int = n3 + texts[3].len();
    let n4: int = m3 + names[3].len();
    let m4: int = n4 + texts[4].len();
    let n5: int = m4 + names[4].len();
    let m5: int = n5 + texts[5].len();
    let n6: int = m5 + names[5].len();
    let m6: int = n6 + texts[6].len();
    let n7: int = m6 + names[6].len();
    let m7: int = n7 + texts[7].len();
    let n8: int = m7 + names[7].len();
    let m8: int = n8 + texts[8].len();
    let n9: int = m8 + names[8].len();
    let m9: int = n9 + texts[9].len();
    let n10: int = m9 + names[9].len();
    let m10: int = n10 + texts[10].len();
    let n11: int = m10 + names[10].len();
    let m11: int = n11 + texts[11].len();
    let n12: int = m11 + names[11].len();
    let m12: int = n12 + texts[12].len();
    let n13: int = m12 + names[12].len();
    let m13: int = n13 + texts[13].len();
    let n14: int = m13 + names[13].len();
    let m14: int = n14 + texts[14].len();
    let n15: int = m14 + names[14].len();
    let m15: int = n15 + texts[15].len();
    let n16: int = m15 + names[15].len();
    assert(t.subrange(n0, m0) =~= texts[0]);
    assert(t.subrange(m0, n1) =~= names[0]);
    lemma_part(t, n0, texts[0], names[0]);
    assert(t.subrange(n1, m1) =~= texts[1]);
    assert(t.subrange(m1, n2) =~= names[1]);
    lemma_part(t, n1, texts[1], names[1]);
    assert(t.subrange(n2, m2) =~= texts[2]);
    assert(t.subrange(m2, n3) =~= names[2]);
    lemma_part(t, n2, texts[2], names[2]);
    assert(t.subrange(n3, m3) =~= texts[3]);
    assert(t.subrange(m3, n4) =~= names[3]);
    lemma_part(t, n3, texts[3], names[3]);
    assert(t.subrange(n4, m4) =~= texts[4]);
    assert(t.subrange(m4, n5) =~= names[4]);
    lemma_part(t, n4, texts[4], names[4]);
    assert(t.subrange(n5, m5) =~= texts[5]);
    assert(t.subrange(m5, n6) =~= names[5]);
    lemma_part(t, n5, texts[5], names[5]);
    assert(t.subrange(n6, m6) =~= texts[6]);
    assert(t.subrange(m6, n7) =~= names[6]);
    lemma_part(t, n6, texts[6], names[6]);
    assert(t.subrange(n7, m7) =~= texts[7]);
    assert(t.subrange(m7, n8) =~= names[7]);
    lemma_part(t, n7, texts[7], names[7]);
    assert(t.subrange(n8, m8) =~= texts[8]);
    assert(t.subrange(m8, n9) =~= names[8]);
    lemma_part(t, n8, texts[8], names[8]);
    assert(t.subrange(n9, m9) =~= texts[9]);
    assert(t.subrange(m9, n10) =~= names[9]);
    lemma_part(t, n9, texts[9], names[9]);
    assert(t.subrange(n10, m10) =~= texts[10]);
    assert(t.subrange(m10, n11) =~= names[10]);
    lemma_part(t, n10, texts[10], names[10]);
    assert(t.subrange(n11, m11) =~= texts[11]);
    assert(t.subrange(m11, n12) =~= names[11]);
    lemma_part(t, n11, texts[11], names[11]);
    assert(t.subrange(n12, m12) =~= texts[12]);
    assert(t.subrange(m12, n13) =~= names[12]);
    lemma_part(t, n12, texts[12], names[12]);
    assert(t.subrange(n13, m13) =~= texts[13]);
    assert(t.subrange(m13, n14) =~= names[13]);
    lemma_part(t, n13, texts[13], names[13]);
    assert(t.subrange(n14, m14) =~= texts[14]);
    assert(t.subrange(m14, n15) =~= names[14]);
    lemma_part(t, n14, texts[14], names[14]);
    assert(t.subrange(n15, m15) =~= texts[15]);
    assert(t.subrange(m15, n16) =~= names[15]);
    lemma_part(t, n15, texts[15], names[15]);
    assert(t.skip(n16) =~= texts[16]);
    assert(spelled(texts, names, 16) == texts[16]);
    assert(spelled(texts, names, 15) == t.skip(n15));
    assert(spelled(texts, names, 14) == t.skip(n14));
    assert(spelled(texts, names, 13) == t.skip(n13));
    assert(spelled(texts, names, 12) == t.skip(n12));
    assert(spelled(texts, names, 11) == t.skip(n11));
    assert(spelled(texts, names, 10) == t.skip(n10));
    assert(spelled(texts, names, 9) == t.skip(n9));
    assert(spelled(texts, names, 8) == t.skip(n8));
    assert(spelled(texts, names, 7) == t.skip(n7));
    assert(spelled(texts, names, 6) == t.skip(n6));
    assert(spelled(texts, names, 5) == t.skip(n5));
    assert(spelled(texts, names, 4) == t.skip(n4));
    assert(spelled(texts, names, 3) == t.skip(n3));
    assert(spelled(texts, names, 2) == t.skip(n2));
    assert(spelled(texts, names, 1) == t.skip(n1));
    assert(spelled(texts, names, 0) == t.skip(n0));
    assert(t.skip(0) =~= t);
}

/// Law: the configuration of the system is exactly this text, with these answers in it,
/// where no answer holds an opening brace.
pub proof fn law_the_text_of_configuration(a: AnswersView)
    requires
        without_braces(a),
    ensures
        filled(CONFIGURATION_TEMPLATE@, configuration_slots(a)) == spelled(
            configuration_texts(),
            seq![
                a.wm,
                a.terminal,
                a.shell,
                a.launcher,
                a.browser,
                a.editor,
                a.theme,
                a.wm,
                a.terminal,
                a.dm,
                a.launcher,
                a.browser,
                a.shell,
                a.user,
                a.full_name,
                a.email,
            ],
            0,
        ),
{
    let values = seq![
        a.wm,
        a.terminal,
        a.shell,
        a.launcher,
        a.browser,
        a.editor,
        a.theme,
        a.wm,
        a.terminal,
        a.dm,
        a.launcher,
        a.browser,
        a.shell,
        a.user,
        a.full_name,
        a.email,
    ];
    let slots = configuration_slots(a);
    let names = configuration_names();
    law_configuration_holds_the_answers(a);
    lemma_configuration_slots(a);
    lemma_configuration_spelled();
    assert forall|i: int| 0 <= i < configuration_texts().len() implies plain_text(
        #[trigger] configuration_texts()[i],
    ) by {
        lemma_configuration_texts(i);
    }
    assert forall|i: int| 0 <= i < names.len() implies #[trigger] given(
        slots,
        names[i],
        values[i],
    ) by {
        assert(gives(slots, 0, "{systemName}"@, a.system_name));
        assert(gives(slots, 1, "{user}"@, a.user));
        assert(gives(slots, 2, "{email}"@, a.email));
        assert(gives(slots, 3, "{colors}"@, a.theme));
        assert(gives(slots, 4, "{fullName}"@, a.full_name));
        assert(gives(slots, 5, "{wm}"@, a.wm));
        assert(gives(slots, 6, "{terminal}"@, a.terminal));
        assert(gives(slots, 7, "{dm}"@, a.dm));
        assert(gives(slots, 8, "{launcher}"@, a.launcher));
        assert(gives(slots, 9, "{browser}"@, a.browser));
        assert(gives(slots, 10, "{shell}"@, a.shell));
        assert(gives(slots, 11, "{editor}"@, a.editor));
    }
    lemma_spelled(configuration_texts(), names, values, slots, 0);
}

/// The texts of the configuration of the home directory, before, between and behind the answers.
pub open spec fn home_texts() -> Seq<Seq<char>> {
    seq![
        r#"{
  pkgs,
  config,
  lib,
  glacier,
  ...
}: {
  home.stateVersion = "25.11";
  glacier.wallpaper = config.glacier.defaultWallpapers."#@,
        r#";
}
"#@,
    ]
}

/// The names of the answers in the configuration of the home directory, in the order in which they stand.
spec fn home_names() -> Seq<Seq<char>> {
    seq![
        "{wallpaper}"@,
    ]
}

/// No text of the configuration of the home directory holds a slot.
proof fn lemma_home_texts(k: int)
    requires
        0 <= k < home_texts().len(),
    ensures
        plain_text(home_texts()[k]),
{
    reveal_strlit(r#"{
  pkgs,
  config,
  lib,
  glacier,
  ...
}: {
  home.stateVersion = "25.11";
  glacier.wallpaper = config.glacier.defaultWallpapers."#);
    reveal_strlit(r#";
}
"#);
    assert(plain_text(home_texts()[0]));
    assert(plain_text(home_texts()[1]));
}

/// The template of the configuration of the home directory, text by text.
#[verifier::rlimit(60)]
proof fn lemma_home_spelled()
    ensures
        HOME_TEMPLATE@ == spelled(home_texts(), home_names(), 0),
{
    let t = HOME_TEMPLATE@;
    let texts = home_texts();
    let names = home_names();
    reveal_strlit(
        r#"{
  pkgs,
  config,
  lib,
  glacier,
  ...
}: {
  home.stateVersion = "25.11";
  glacier.wallpaper = config.glacier.defaultWallpapers.{wallpaper};
}
"#,
    );
    reveal_strlit(r#"{
  pkgs,
  config,
  lib,
  glacier,
  ...
}: {
  home.stateVersion = "25.11";
  glacier.wallpaper = config.glacier.defaultWallpapers."#);
    reveal_strlit(r#";
}
"#);
    reveal_strlit("{wallpaper}");
    let n0: int = 0;
    let m0: int = n0 + texts[0].len();
    let n1: int = m0 + names[0].len();
    assert(t.subrange(n0, m0) =~= texts[0]);
    assert(t.subrange(m0, n1) =~= names[0]);
    lemma_part(t, n0, texts[0], names[0]);
    assert(t.skip(n1) =~= texts[1]);
    assert(spelled(texts, names, 1) == texts[1]);
    assert(spelled(texts, names, 0) == t.skip(n0));
    assert(t.skip(0) =~= t);
}

/// Law: the configuration of the home directory is exactly this text, with this answer
/// in it, where it holds no opening brace.
pub proof fn law_the_text_of_home(a: AnswersView)
    requires
        without_braces(a),
    ensures
        filled(HOME_TEMPLATE@, home_slots(a)) == spelled(
            home_texts(),
            seq![
                a.wallpaper,
            ],
            0,
        ),
{
    let values = seq![
        a.wallpaper,
    ];
    let slots = home_slots(a);
    let names = home_names();
    law_home_holds_the_answers(a);
    lemma_home_slots(a);
    lemma_home_spelled();
    assert forall|i: int| 0 <= i < home_texts().len() implies plain_text(
        #[trigger] home_texts()[i],
    ) by {
        lemma_home_texts(i);
    }
    assert forall|i: int| 0 <= i < names.len() implies #[trigger] given(
        slots,
        names[i],
        values[i],
    ) by {
        assert(gives(slots, 0, "{wallpaper}"@, a.wallpaper));
    }
    lemma_spelled(home_texts(), names, values, slots, 0);
}

/// Law: which answer each name of the three templates stands for, in the order in which
/// they are filled.
pub proof fn law_what_the_names_stand_for(a: AnswersView)
    ensures
        flake_slots(a).len() == 8,
        gives(flake_slots(a), 0, "{systemName}"@, a.system_name),
        gives(flake_slots(a), 1, "{wm}"@, a.wm),
        gives(flake_slots(a), 2, "{terminal}"@, a.terminal),
        gives(flake_slots(a), 3, "{dm}"@, a.dm),
        gives(flake_slots(a), 4, "{launcher}"@, a.launcher),
        gives(flake_slots(a), 5, "{browser}"@, a.browser),
        gives(flake_slots(a), 6, "{shell}"@, a.shell),
        gives(flake_slots(a), 7, "{editor}"@, a.editor),
        configuration_slots(a).len() == 12,
        gives(configuration_slots(a), 0, "{systemName}"@, a.system_name),
        gives(configuration_slots(a), 1, "{user}"@, a.user),
        gives(configuration_slots(a), 2, "{email}"@, a.email),
        gives(configuration_slots(a), 3, "{colors}"@, a.theme),
        gives(configuration_slots(a), 4, "{fullName}"@, a.full_name),
        gives(configuration_slots(a), 5, "{wm}"@, a.wm),
        gives(configuration_slots(a), 6, "{terminal}"@, a.terminal),
        gives(configuration_slots(a), 7, "{dm}"@, a.dm),
        gives(configuration_slots(a), 8, "{launcher}"@, a.launcher),
        gives(configuration_slots(a), 9, "{browser}"@, a.browser),
        gives(configuration_slots(a), 10, "{shell}"@, a.shell),
        gives(configuration_slots(a), 11, "{editor}"@, a.editor),
        home_slots(a).len() == 1,
        gives(home_slots(a), 0, "{wallpaper}"@, a.wallpaper),
{
}

} // verus!
