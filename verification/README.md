# lib

Verified building blocks of an H.264/SVC video encoder, written in Verus.

- `src/` is the library. Every function carries a `requires`/`ensures`
  contract over spec models, and the public `law_*` proof functions state
  properties that relate several functions.
  - `bits`, `vlc_encoder`: the bit writer and the CAVLC code tables.
  - `mb`: macroblock records and neighbour caches.
  - `svc_set_mb_syn_cavlc`, `cavlc_mb_residual`, `cavlc_mb_pred`: the CAVLC
    macroblock syntax, and saving and restoring a macroblock's coder state.
  - `svc_set_mb_syn_cabac`: the CABAC context helpers and the order and
    contexts of a macroblock's CABAC residual blocks.
  - `svc_encode_mb`: the DC transforms and dequantisation.
  - `svc_motion_estimate`: SAD kernels, the diamond, line and cross searches,
    the initial search point and the block feature sums.
  - `feature_search`: the block-feature hash of a reference picture and the
    feature search of screen content.
  - `svc_mode_decision`: motion-vector prediction, mode-decision helpers and
    the decisions of background and screen-content macroblocks.
  - `svc_encode_slice`: slice layout, slice headers, dynamic slicing and
    the step of a slice's macroblock loop.
  - `wels_encoder_ext`: the profile, level and reference-count checks, the
    long-term reference request, the decision whether new parameters need
    the encoder rebuilt (and their take-up when not), the statistics
    counters of a coded frame (each layer's frame type and bytes taken from
    the bitstream report), and the IDR request.
- `tests/` runs the library on concrete values.
- `app/` holds what reads the clock or computes in floating point (frame
  rates and their ratios).
