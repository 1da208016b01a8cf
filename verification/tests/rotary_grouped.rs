use flat_attention::attention_shape::FlatAttentionError;
use flat_attention::rotary_grouped::RotaryEmbeddingConfig;

#[test]
fn rejects_odd_head_dim() {
    let error = RotaryEmbeddingConfig {
        theta_bits: 10_000.0f32.to_bits(),
        position_offset: 0,
    }
    .validate(63, 4)
    .unwrap_err();
    assert_eq!(
        error,
        FlatAttentionError::InvalidRotaryHeadDim { head_dim: 63 }
    );
}

#[test]
fn rejects_invalid_theta() {
    for theta in [0.0f32, -1.0, f32::NAN, f32::INFINITY] {
        assert!(matches!(
            RotaryEmbeddingConfig {
                theta_bits: theta.to_bits(),
                position_offset: 0
            }
            .validate(64, 4),
            Err(FlatAttentionError::InvalidRotaryTheta(_))
        ));
    }
}

#[test]
fn rotary_accepts_positive_theta_and_checks_last_position() {
    let config = RotaryEmbeddingConfig {
        theta_bits: 10_000.0f32.to_bits(),
        position_offset: usize::MAX - 3,
    };
    assert_eq!(config.validate(64, 4), Ok(()));
    assert_eq!(
        config.validate(64, 5),
        Err(FlatAttentionError::PositionOverflow)
    );
    assert_eq!(
        config.validate(0, 1),
        Err(FlatAttentionError::InvalidRotaryHeadDim { head_dim: 0 })
    );
    assert_eq!(
        RotaryEmbeddingConfig {
            theta_bits: (-0.0f32).to_bits(),
            position_offset: 0,
        }
        .validate(2, 1),
        Err(FlatAttentionError::InvalidRotaryTheta(0x8000_0000))
    );
}
